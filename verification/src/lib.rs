//! A small 16-bit virtual computer: a cycle-accurate emulator for a custom
//! CPU with 64 KiB of linear memory, two removable 1 MiB disks, a
//! framebuffer-backed screen and an event-driven input model, together with
//! an assembler that compiles a line-oriented textual language into the
//! CPU's bytecode.
//!
//! The emulator's semantics are stated once, as spec-level step functions
//! over [`sem::EmulatorView`]; every public mutator of [`emulator::Emulator`]
//! is proved equal to the corresponding step function, which makes the
//! machine deterministic by construction. The assembler and the CPU decoder
//! are proved to agree bit-for-bit on the instruction encoding.

use vstd::prelude::*;

pub mod isa;
pub mod event;
pub mod sem;
pub mod emulator;
pub mod laws;
pub mod source;
pub mod parse;
pub mod encode;
pub mod assemble;

verus! {

/// Number of bytes of main memory.
pub const MEMORY_SIZE: usize = 65536;

/// Number of bytes of one disk.
pub const DISK_SIZE: usize = 1048576;

/// Width of the screen in bytes.
pub const SCREEN_WIDTH: usize = 64;

/// Height of the screen in rows.
pub const SCREEN_HEIGHT: usize = 48;

/// Number of bytes of the framebuffer (row-major).
pub const SCREEN_SIZE: usize = 3072;

/// Memory address the framebuffer is snapshotted from.
pub const SCREEN_POSITION: u16 = 0xC000;

/// Number of cycles between two screen refreshes.
pub const SCREEN_REFRESH_TIME: u64 = 78643;

/// Number of bytes one disk operation transfers.
pub const DISK_OP_SIZE: usize = 4096;

/// Number of cycles between two byte transfers of a running disk operation.
pub const CYCLES_PER_BYTE: u64 = 32;

/// Capacity of the event queue; on overflow the oldest event is dropped.
pub const EVENT_QUEUE_CAPACITY: usize = 64;

} // verus!
