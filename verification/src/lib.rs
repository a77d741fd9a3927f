//! Task management and the process system calls of a small kernel.

pub mod config;
pub mod laws;
pub mod mm;
pub mod step;
pub mod task;
pub mod syscall;
