//! Network-interface driver logic for a bare-metal kernel: PCI enumeration
//! decisions, register programs for two NIC families, the receive-buffer
//! cursor discipline, header decoding and in-place ARP / ICMP echo replies.
//!
//! Everything that touches hardware (port I/O, memory-mapped registers, the
//! allocator, the debug console) is performed by the caller; this crate
//! decides what to read, what to write and what to send.
pub mod addr;
pub mod bytes;
pub mod checksum;
pub mod dispatch;
pub mod headers;
pub mod intel8254x;
pub mod pci;
pub mod rtl8139;
