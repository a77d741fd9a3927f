//! Virtual addresses and the address space of a task.

mod address;
mod memory_set;

pub use address::{VPNRange, VirtAddr, VirtPageNum};
pub use memory_set::{MapPermission, MemorySet, SpaceView};
