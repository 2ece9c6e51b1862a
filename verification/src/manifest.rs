//! The kernel's check of a loaded Tier-2 driver against its manifest:
//! every declared export must carry a known signature and be exported
//! by the instance with that signature. Asking the instance is the
//! runtime's; it reports one answer per declaration.

use vstd::prelude::*;
use crate::driver_iface::{func_sig_known, ExportDecl, FuncSig};
use crate::error::KernelError;
use crate::parse::DriverManifestView;

verus! {

/// The result of checking declarations `i..` of `ex`, where `present[j]`
/// tells whether the instance exports declaration `j`'s name with its
/// signature: the first declaration with an unknown signature is
/// `DriverManifestMalformed`, the first one missing from the instance
/// is `DriverBadExport`, whichever comes first.
pub open spec fn exports_check(ex: Seq<ExportDecl>, present: Seq<bool>, i: int) -> Result<(), KernelError>
    decreases ex.len() - i,
{
    if i < 0 || i >= ex.len() {
        Ok(())
    } else if !func_sig_known(ex[i].sig) {
        Err(KernelError::DriverManifestMalformed)
    } else if !present[i] {
        Err(KernelError::DriverBadExport)
    } else {
        exports_check(ex, present, i + 1)
    }
}

/// Check the manifest's export declarations in order; `present[i]` is
/// the instance's answer for declaration `i` (its value does not matter
/// when the signature does not decode).
pub fn verify_exports(view: &DriverManifestView, present: &[bool]) -> (r: Result<(), KernelError>)
    requires
        present@.len() == view.exports@.len(),
    ensures
        r == exports_check(view.exports@, present@, 0),
{
    let n = view.exports.len();
    let mut i: usize = 0;
    while i < n
        invariant
            n == view.exports@.len(),
            present@.len() == n,
            i <= n,
            exports_check(view.exports@, present@, 0) == exports_check(view.exports@, present@, i as int),
        decreases n - i,
    {
        let sig: Option<FuncSig> = FuncSig::from_raw(view.exports[i].sig);
        if sig.is_none() {
            return Err(KernelError::DriverManifestMalformed);
        }
        if !present[i] {
            return Err(KernelError::DriverBadExport);
        }
        i = i + 1;
    }
    Ok(())
}

} // verus!
