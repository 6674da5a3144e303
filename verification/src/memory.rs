pub mod allocator;
pub mod allocators;
pub mod arena;
pub mod foreign;
pub mod free;
pub mod layout;
pub mod mmap;
pub mod slice_dst;
pub mod strategy;
pub mod types;
pub mod uninit;
