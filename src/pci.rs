//! PCI enumeration on bus 0: which slots hold a supported NIC, and the
//! driver handle each one gets.
//!
//! A configuration space is given as 32 slots of 64 double words each
//! (function 0 of each slot), double word `d` of slot `s` at `64 * s + d`.
use vstd::prelude::*;
use crate::intel8254x::Intel8254x;
use crate::rtl8139::RTL8139;

verus! {

pub const CONFIG_ADDRESS: u16 = 0xCF8;
pub const CONFIG_DATA: u16 = 0xCFC;
pub const PCI_SLOTS: usize = 32;
pub const CONFIG_DWORDS: usize = 64;
pub const CONFIG_SPACE_DWORDS: usize = 2048;

/// Vendor 0x8086, device 0x100E.
pub const ID_INTEL_8254X: u32 = 0x100E_8086;
/// Vendor 0x10EC, device 0x8139.
pub const ID_RTL8139: u32 = 0x8139_10EC;

/// Double word of the command register.
pub const DW_COMMAND: usize = 1;
/// Double word of BAR0.
pub const DW_BAR0: usize = 4;
/// Double word of the interrupt line.
pub const DW_INTERRUPT: usize = 15;
/// Command register bit that enables bus mastering.
pub const COMMAND_BUS_MASTER: u32 = 0x4;

/// The value written to the configuration address port to reach `offset`
/// of `function` in `slot` on `bus`.
pub open spec fn spec_config_address(bus: u32, slot: u32, function: u32, offset: u32) -> u32 {
    0x8000_0000u32 | (bus << 16u32) | (slot << 11u32) | (function << 8u32) | (offset & 0xFCu32)
}

pub fn config_address(bus: u8, slot: u8, function: u8, offset: u8) -> (r: u32)
    requires
        slot < 32,
        function < 8,
    ensures
        r == spec_config_address(bus as u32, slot as u32, function as u32, offset as u32),
{
    0x8000_0000u32 | ((bus as u32) << 16u32) | ((slot as u32) << 11u32) | ((function as u32)
        << 8u32) | ((offset as u32) & 0xFCu32)
}

/// The device word (device id above vendor id) of a slot.
pub open spec fn device_word(cfg: Seq<u32>, slot: int) -> u32 {
    cfg[64 * slot]
}

/// A slot whose vendor id reads as all ones holds no device.
pub open spec fn present(word: u32) -> bool {
    word & 0xFFFF != 0xFFFF
}

pub open spec fn supported(word: u32) -> bool {
    word == ID_INTEL_8254X || word == ID_RTL8139
}

/// The interrupt line a slot is configured with.
pub open spec fn interrupt_line(cfg: Seq<u32>, slot: int) -> u32 {
    cfg[64 * slot + 15] & 0xF
}

/// Whether a scan acts on `slot`: a supported device, and during interrupt
/// dispatch one wired to the asserted line.
pub open spec fn selected(cfg: Seq<u32>, slot: int, irq: Option<u8>) -> bool {
    &&& present(device_word(cfg, slot))
    &&& supported(device_word(cfg, slot))
    &&& match irq {
        Some(line) => interrupt_line(cfg, slot) == line as u32,
        None => true,
    }
}

/// The slots below `n` that a scan acts on, in increasing order.
pub open spec fn selected_slots(cfg: Seq<u32>, irq: Option<u8>, n: int) -> Seq<int>
    decreases n,
{
    if n <= 0 {
        seq![]
    } else if selected(cfg, n - 1, irq) {
        selected_slots(cfg, irq, n - 1).push(n - 1)
    } else {
        selected_slots(cfg, irq, n - 1)
    }
}

/// The register base that BAR0 gives: the value without its space bit.
pub open spec fn bar_base(bar: u32) -> usize {
    (bar & 0xFFFF_FFFEu32) as usize
}

/// BAR0's low bit is clear for a memory-mapped register block.
pub open spec fn bar_memory_mapped(bar: u32) -> bool {
    bar & 1 == 0
}

/// The driver handle a scan builds for a supported device.
pub enum Nic {
    Intel8254x(Intel8254x),
    RTL8139(RTL8139),
}

/// One supported device found by a scan.
pub struct Probe {
    pub slot: usize,
    pub nic: Nic,
    /// The command register value to write first, where the device needs
    /// bus mastering enabled before its driver starts.
    pub command: Option<u32>,
}

impl Probe {
    /// This entry is what a scan builds for `slot`: during a full probe
    /// (`probing`) the circular-buffer NIC also gets bus mastering.
    pub open spec fn describes(&self, cfg: Seq<u32>, slot: int, probing: bool, rx: usize) -> bool {
        let bar = cfg[64 * slot + 4];
        &&& self.slot == slot
        &&& match self.nic {
            Nic::Intel8254x(d) => {
                &&& device_word(cfg, slot) == ID_INTEL_8254X
                &&& d.base == bar_base(bar)
                &&& d.memory_mapped == bar_memory_mapped(bar)
                &&& self.command == None::<u32>
            },
            Nic::RTL8139(d) => {
                &&& device_word(cfg, slot) == ID_RTL8139
                &&& d.base == bar_base(bar)
                &&& d.memory_mapped == bar_memory_mapped(bar)
                &&& d.receive_buffer == rx
                &&& d.tx == 0
                &&& self.command == if probing {
                    Some(cfg[64 * slot + 1] | COMMAND_BUS_MASTER)
                } else {
                    None
                }
            },
        }
    }
}

/// Scans the 32 slots and builds a handle for each selected one.
fn scan(cfg: &[u32], irq: Option<u8>, rx: usize) -> (r: Vec<Probe>)
    requires
        cfg@.len() == CONFIG_SPACE_DWORDS,
    ensures
        r@.len() == selected_slots(cfg@, irq, 32).len(),
        forall|i: int|
            0 <= i < r@.len() ==> #[trigger] r@[i].describes(
                cfg@,
                selected_slots(cfg@, irq, 32)[i],
                irq is None,
                rx,
            ),
{
    let mut r: Vec<Probe> = Vec::new();
    let mut slot: usize = 0;
    while slot < PCI_SLOTS
        invariant
            cfg@.len() == CONFIG_SPACE_DWORDS,
            slot <= PCI_SLOTS,
            r@.len() == selected_slots(cfg@, irq, slot as int).len(),
            forall|i: int|
                0 <= i < r@.len() ==> #[trigger] r@[i].describes(
                    cfg@,
                    selected_slots(cfg@, irq, slot as int)[i],
                    irq is None,
                    rx,
                ),
        decreases PCI_SLOTS - slot,
    {
        let at = CONFIG_DWORDS * slot;
        let word = cfg[at];
        let wired = match irq {
            Some(line) => cfg[at + DW_INTERRUPT] & 0xF == line as u32,
            None => true,
        };
        let ghost before = selected_slots(cfg@, irq, slot as int);
        if (word & 0xFFFF) != 0xFFFF && wired && (word == ID_INTEL_8254X || word == ID_RTL8139) {
            let bar = cfg[at + DW_BAR0];
            let base = (bar & 0xFFFF_FFFEu32) as usize;
            let memory_mapped = bar & 1 == 0;
            let probe = if word == ID_INTEL_8254X {
                Probe { slot, nic: Nic::Intel8254x(Intel8254x { base, memory_mapped }), command: None }
            } else {
                let command = if irq.is_none() {
                    Some(cfg[at + DW_COMMAND] | COMMAND_BUS_MASTER)
                } else {
                    None
                };
                Probe { slot, nic: Nic::RTL8139(RTL8139::new(base, memory_mapped, rx)), command }
            };
            r.push(probe);
            assert(selected_slots(cfg@, irq, slot + 1) == before.push(slot as int));
        } else {
            assert(selected_slots(cfg@, irq, slot + 1) == before);
        }
        slot = slot + 1;
    }
    r
}

/// The full probe: every supported device on bus 0, each with the handle
/// its driver is started with.
pub fn pci_test(cfg: &[u32], receive_buffer: usize) -> (r: Vec<Probe>)
    requires
        cfg@.len() == CONFIG_SPACE_DWORDS,
    ensures
        r@.len() == selected_slots(cfg@, None, 32).len(),
        forall|i: int|
            0 <= i < r@.len() ==> #[trigger] r@[i].describes(
                cfg@,
                selected_slots(cfg@, None, 32)[i],
                true,
                receive_buffer,
            ),
{
    scan(cfg, None, receive_buffer)
}

/// Interrupt dispatch: every supported device wired to `irq`, each with
/// the handle whose receive path is to run.
pub fn pci_handle(cfg: &[u32], irq: u8, receive_buffer: usize) -> (r: Vec<Probe>)
    requires
        cfg@.len() == CONFIG_SPACE_DWORDS,
    ensures
        r@.len() == selected_slots(cfg@, Some(irq), 32).len(),
        forall|i: int|
            0 <= i < r@.len() ==> #[trigger] r@[i].describes(
                cfg@,
                selected_slots(cfg@, Some(irq), 32)[i],
                false,
                receive_buffer,
            ),
{
    scan(cfg, Some(irq), receive_buffer)
}

/// The slots a scan selects are below its bound and strictly increasing;
/// each slot below the bound is listed exactly when selected.
pub proof fn lemma_selected_slots(cfg: Seq<u32>, irq: Option<u8>, n: int)
    requires
        0 <= n,
    ensures
        forall|i: int|
            0 <= i < selected_slots(cfg, irq, n).len() ==> 0 <= #[trigger] selected_slots(
                cfg,
                irq,
                n,
            )[i] < n,
        forall|i: int, j: int|
            0 <= i < j < selected_slots(cfg, irq, n).len() ==> selected_slots(cfg, irq, n)[i]
                < selected_slots(cfg, irq, n)[j],
        forall|k: int|
            0 <= k < n ==> (selected(cfg, k, irq) <==> selected_slots(cfg, irq, n).contains(k)),
    decreases n,
{
    if n > 0 {
        lemma_selected_slots(cfg, irq, n - 1);
        let prev = selected_slots(cfg, irq, n - 1);
        let cur = selected_slots(cfg, irq, n);
        assert forall|k: int| 0 <= k < n implies (selected(cfg, k, irq) <==> cur.contains(k)) by {
            if k < n - 1 {
                if prev.contains(k) {
                    let i = choose|i: int| 0 <= i < prev.len() && prev[i] == k;
                    assert(cur[i] == k);
                }
                if cur.contains(k) {
                    let i = choose|i: int| 0 <= i < cur.len() && cur[i] == k;
                    if i < prev.len() {
                        assert(prev[i] == k);
                    }
                }
            } else if selected(cfg, k, irq) {
                assert(cur[cur.len() - 1] == k);
            } else {
                assert(cur == prev);
            }
        }
    }
}

/// During a full probe a slot whose device word reads as all ones starts
/// no driver, and a slot holding one of the two supported NICs starts the
/// matching driver exactly once.
pub proof fn lemma_probe_once(cfg: Seq<u32>, slot: int)
    requires
        cfg.len() == CONFIG_SPACE_DWORDS,
        0 <= slot < 32,
    ensures
        device_word(cfg, slot) & 0xFFFF == 0xFFFF ==> !selected_slots(cfg, None, 32).contains(slot),
        supported(device_word(cfg, slot)) ==> exists|i: int|
            0 <= i < selected_slots(cfg, None, 32).len() && selected_slots(cfg, None, 32)[i] == slot
                && forall|j: int|
                0 <= j < selected_slots(cfg, None, 32).len() && selected_slots(cfg, None, 32)[j]
                    == slot ==> j == i,
{
    lemma_selected_slots(cfg, None, 32);
    let s = selected_slots(cfg, None, 32);
    assert(selected(cfg, slot, None) <==> s.contains(slot));
    if supported(device_word(cfg, slot)) {
        assert(present(device_word(cfg, slot))) by {
            let w = device_word(cfg, slot);
            assert(w == 0x100E_8086u32 ==> w & 0xFFFF != 0xFFFF) by (bit_vector);
            assert(w == 0x8139_10ECu32 ==> w & 0xFFFF != 0xFFFF) by (bit_vector);
        }
        assert(s.contains(slot));
        let i = choose|i: int| 0 <= i < s.len() && s[i] == slot;
        assert forall|j: int| 0 <= j < s.len() && s[j] == slot implies j == i by {
            if j < i {
                assert(s[j] < s[i]);
            } else if j > i {
                assert(s[i] < s[j]);
            }
        }
    }
}

} // verus!
