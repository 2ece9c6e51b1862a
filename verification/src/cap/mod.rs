//! The dynamic capability system: primitive types, per-process
//! capability spaces, and the operations that mint, copy, revoke and
//! delete capabilities.

pub mod types;
pub mod cspace;
pub mod objects;
pub mod reg;
pub mod ring;
pub mod storage;
pub mod syscall;
pub mod revoke;
pub mod boot;
pub mod grants;
pub mod refcount;
