//! Resident core of a freestanding kernel: the physical frame allocator, the
//! page-table mapper and the heap bootstrap that turn the bootloader's memory
//! map into a mapped heap window, and the cooperative task executor that runs
//! on top of it.
pub mod frame;
pub mod paging;
pub mod heap;
pub mod tasks;
pub mod waker;
pub mod power;
pub mod exit;
pub mod memory;
pub mod storage;
pub mod random;
pub mod build_info;
