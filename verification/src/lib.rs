//! Early bring-up of an x86-64 kernel: the hand-off data left by the loader
//! and the processor tables that have to be in place before anything else
//! can run.
//!
//! - `boot`: the list of records the loader hands over, and the memory map
//!   among them, read with every bound checked.
//! - `interrupts`: the segment table with its task-state segment, the
//!   interrupt table, and the order in which they are activated.
//! - `vga`, `serial`, `logger`: text output.
//! - `pmm`: the bitmap of page frames.
//! - `harness`: the kernel's own test runs.
//! - `wire`: integers as bytes.
//!
//! Nothing here runs a privileged instruction or knows a hardware address.
//! The tables are handed out as bytes, what has to be told to the processor
//! as plain values, and memory that belongs to the loader or to a device is
//! handed in by the caller.

pub mod boot;
pub mod harness;
pub mod interrupts;
pub mod logger;
pub mod pmm;
pub mod serial;
pub mod vga;
pub mod wire;
