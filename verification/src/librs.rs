//! The user-space runtime library: message building for IPC and path
//! handling.  The `ecall` stubs that carry these values into the kernel are
//! the embedder's.

pub mod ipc;
pub mod path;
