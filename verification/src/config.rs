//! Fixed sizes of the kernel.

use vstd::prelude::*;

verus! {

/// Bytes in one page of virtual memory.
pub const PAGE_SIZE: usize = 4096;

/// System call numbers lie below this bound.
pub const MAX_SYSCALL_NUM: usize = 500;

/// Microseconds in one second.
pub const MICRO_PER_SEC: usize = 1_000_000;

/// Priority of a task that has not asked for another one.
pub const DEFAULT_PRIORITY: u8 = 16;

/// General purpose registers in a trap context.
pub const NUM_REGISTERS: usize = 32;

/// The register that carries a system call's result back to user mode.
pub const RESULT_REGISTER: usize = 10;

} // verus!
