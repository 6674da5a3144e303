//! Memory for values, under an ownership discipline that the caller chooses
//! apart from the source of the bytes: layouts of records, handles and
//! their bookkeeping, a bump arena and a wrapper for allocators in the manner
//! of C.

pub mod memory;
pub mod num;
pub mod platform;
pub mod types;
