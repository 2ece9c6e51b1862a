//! Verified core of the Wari capability kernel.

pub mod abi;
pub mod error;
pub mod driver_iface;
pub mod parse;
pub mod manifest;
pub mod cap;
pub mod sched;
pub mod ipc;
pub mod tier1;
pub mod sign;
pub mod modreg;
pub mod events;
pub mod plic;
pub mod heap;
pub mod pagetable;
pub mod guard;
pub mod hello;
pub mod uart;
pub mod virtq;
pub mod vf2;
pub mod vf2_bringup;
pub mod virtio;
pub mod wasi;
pub mod hostfns;
