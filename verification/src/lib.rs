//! Thread contexts of a small RISC-V supervisor kernel: the saved state of a
//! suspended thread, its construction for new kernel and user threads, and the
//! register-level transfer from one thread to another, stated over an explicit
//! model of the hart and of the stack memory.

pub mod arena;
pub mod content;
pub mod context;
pub mod hart;
pub mod laws;
pub mod layout;
pub mod lifecycle;
pub mod status;
pub mod trap;
