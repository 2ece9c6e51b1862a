//! The kernel's single error taxonomy.

use vstd::prelude::*;

verus! {

/// Errors returned by kernel-internal operations.
#[derive(Debug, Clone, Copy, PartialEq, Eq, Structural)]
pub enum KernelError {
    /// An argument was malformed or out of range.
    InvalidArgument,
    /// The caller lacks the authority for this operation.
    PermissionDenied,
    /// A bounded table (slots, pool, proc ids) is full.
    OutOfHandles,
    /// The page allocator has no free page.
    OutOfPages,
    /// The process slot is empty or not in the expected state.
    NoSuchProcess,
    /// A module failed signature verification or validation.
    BadWasm,
    /// A driver is missing an expected export or failed a call.
    DriverError,
    /// A driver manifest is malformed.
    DriverManifestMalformed,
    /// A driver export does not match its declared signature.
    DriverBadExport,
}

} // verus!
