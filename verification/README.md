# wari

The verified core of Wari, a capability kernel that runs WebAssembly
modules: signed Tier-2 drivers and isolated Tier-1 tenants. Every
function under `src/` carries a Verus contract and is proved against it.

## Layout

- `src/cap/` — capabilities: types and rights, CSpaces, object pools,
  mint / copy / delete / revoke, the revocation cascade, boot-time root
  caps, grants, submission rings, and the reference-count invariant.
- `src/sched.rs`, `src/tier1.rs`, `src/ipc.rs` — the scheduler's
  decisions, the resident Tier-1 instance table, and IPC rendezvous.
- `src/modreg.rs`, `src/sign.rs`, `src/events.rs` — runtime module
  staging, signature gating (Ed25519 via `ed25519-dalek`), grants and
  daemon restarts, and the audit stream: its ring of numbered records,
  readers' cursors, parked readers and the record wire format.
- `src/wasi.rs`, `src/hostfns.rs` — the decisions behind the host calls
  offered to tenants and drivers.
- `src/pagetable.rs`, `src/heap.rs`, `src/plic.rs`, `src/uart.rs` —
  Sv39 identity page tables, the bump allocator, PLIC and UART register
  maps.
- `src/driver_iface.rs`, `src/parse.rs`, `src/manifest.rs`, `src/abi.rs`
  — the driver manifest format, its parser, export checking, and the
  syscall ABI.
- `src/virtq.rs`, `src/virtio.rs`, `src/vf2.rs` — the network driver's
  VirtIO queues and device initialisation, and the VisionFive 2 GMAC
  descriptor rings, MDIO commands and bring-up decisions; `src/vf2_bringup.rs`
  — the whole GMAC0 bring-up as a state machine.
- `src/guard.rs`, `src/hello.rs` — the audit-watching guard agent and
  the demo tenant: its message format, console lines and whole run as a
  state machine.
- `app/` — a hosted runner: boots the capability system, runs Tier-1
  modules under `wasmi`, and lets the verified scheduler drive them.
- `tests/` — tests against the library.
