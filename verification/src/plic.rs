//! Platform-Level Interrupt Controller: the register map, the binding
//! of interrupt sources to Notification objects, and what a claimed
//! interrupt does to the bound Notification. The register accesses
//! themselves are the caller's.

use vstd::prelude::*;
use crate::error::KernelError;
use crate::cap::objects::{Notification, PoolsView};
use crate::cap::storage::{CapSystem, with_pools};

verus! {

/// PLIC MMIO base address.
pub const PLIC_BASE: usize = 0x0c00_0000;
/// Number of interrupt sources that can be bound.
pub const MAX_BOUND_IRQS: usize = 64;

/// Address of source `irq`'s priority register.
pub fn priority_addr(irq: u32) -> (r: usize)
    requires
        irq < 0x1000,
    ensures
        r == PLIC_BASE + 4 * irq,
{
    PLIC_BASE + 4 * irq as usize
}

/// Address of pending-bitmap word `irq_word`.
pub fn pending_word_addr(irq_word: usize) -> (r: usize)
    requires
        irq_word < 0x1000,
    ensures
        r == PLIC_BASE + 0x1000 + 4 * irq_word,
{
    PLIC_BASE + 0x1000 + 4 * irq_word
}

/// Address of enable-bitmap word `irq_word` of hart context `context`.
pub fn enable_word_addr(context: usize, irq_word: usize) -> (r: usize)
    requires
        context < 0x4000,
        irq_word < 32,
    ensures
        r == PLIC_BASE + 0x2000 + 0x80 * context + 4 * irq_word,
{
    PLIC_BASE + 0x2000 + 0x80 * context + 4 * irq_word
}

/// Address of context `context`'s priority-threshold register.
pub fn threshold_addr(context: usize) -> (r: usize)
    requires
        context < 0x4000,
    ensures
        r == PLIC_BASE + 0x20_0000 + 0x1000 * context,
{
    PLIC_BASE + 0x20_0000 + 0x1000 * context
}

/// Address of context `context`'s claim/complete register.
pub fn claim_addr(context: usize) -> (r: usize)
    requires
        context < 0x4000,
    ensures
        r == PLIC_BASE + 0x20_0004 + 0x1000 * context,
{
    PLIC_BASE + 0x20_0004 + 0x1000 * context
}

/// The register writes that enable (or disable) source `irq`: its
/// enable-bitmap word index and the bit within that word.
pub fn irq_enable_bit(irq: u32) -> (r: (usize, u32))
    requires
        irq < MAX_BOUND_IRQS,
    ensures
        r.0 == irq / 32,
        r.1 == 1u32 << (irq % 32),
{
    ((irq / 32) as usize, 1u32 << (irq % 32))
}

/// Check the arguments of enabling source `irq` at `priority`:
/// `InvalidArgument` for an unbindable source or a priority above 7.
pub fn enable_irq_check(irq: u32, priority: u32) -> (r: Result<(), KernelError>)
    ensures
        r is Ok <==> (irq < MAX_BOUND_IRQS && priority <= 7),
        r is Err ==> r == Err::<(), KernelError>(KernelError::InvalidArgument),
{
    if irq as usize >= MAX_BOUND_IRQS {
        return Err(KernelError::InvalidArgument);
    }
    if priority > 7 {
        return Err(KernelError::InvalidArgument);
    }
    Ok(())
}

/// Check the argument of disabling source `irq`.
pub fn disable_irq_check(irq: u32) -> (r: Result<(), KernelError>)
    ensures
        r is Ok <==> irq < MAX_BOUND_IRQS,
        r is Err ==> r == Err::<(), KernelError>(KernelError::InvalidArgument),
{
    if irq as usize >= MAX_BOUND_IRQS {
        return Err(KernelError::InvalidArgument);
    }
    Ok(())
}

/// The table binding interrupt sources to Notification pool indices.
pub struct IrqBindings {
    /// `slots[irq]` is the Notification bound to `irq`, if any.
    pub slots: Vec<Option<u16>>,
}

impl IrqBindings {
    /// One entry per bindable source.
    pub open spec fn wf(&self) -> bool {
        self.slots@.len() == MAX_BOUND_IRQS
    }

    /// No source bound.
    pub fn new() -> (r: Self)
        ensures
            r.wf(),
            forall|i: int| 0 <= i < MAX_BOUND_IRQS ==> (#[trigger] r.slots@[i]) is None,
    {
        let mut slots: Vec<Option<u16>> = Vec::new();
        let mut i: usize = 0;
        while i < MAX_BOUND_IRQS
            invariant
                i <= MAX_BOUND_IRQS,
                slots@.len() == i,
                forall|j: int| 0 <= j < i ==> (#[trigger] slots@[j]) is None,
            decreases MAX_BOUND_IRQS - i,
        {
            slots.push(None);
            i = i + 1;
        }
        IrqBindings { slots }
    }

    /// Bind source `irq` to Notification `notification_pool_index`.
    /// `InvalidArgument` for an unbindable source.
    pub fn bind_irq_to_notification(&mut self, irq: u32, notification_pool_index: u16) -> (r: Result<
        (),
        KernelError,
    >)
        requires
            old(self).wf(),
        ensures
            final(self).wf(),
            irq >= MAX_BOUND_IRQS ==> r == Err::<(), KernelError>(KernelError::InvalidArgument)
                && final(self).slots@ == old(self).slots@,
            irq < MAX_BOUND_IRQS ==> r is Ok && final(self).slots@ == old(self).slots@.update(
                irq as int,
                Some(notification_pool_index),
            ),
    {
        if irq as usize >= MAX_BOUND_IRQS {
            return Err(KernelError::InvalidArgument);
        }
        self.slots.set(irq as usize, Some(notification_pool_index));
        Ok(())
    }

    /// The Notification bound to `irq`, if any.
    pub fn notification_for_irq(&self, irq: u32) -> (r: Option<u16>)
        requires
            self.wf(),
        ensures
            r == if irq < MAX_BOUND_IRQS {
                self.slots@[irq as int]
            } else {
                None
            },
    {
        if irq as usize >= MAX_BOUND_IRQS {
            return None;
        }
        self.slots[irq as usize]
    }
}

/// Deliver claimed interrupt `irq`: set bit `irq % 32` in the signal
/// word of the Notification bound to it. An unbound source, or a
/// binding to a free pool slot, changes nothing. Returns whether a
/// Notification was signalled.
pub fn signal_irq(sys: &mut CapSystem, bindings: &IrqBindings, irq: u32) -> (r: bool)
    requires
        old(sys).wf(),
        bindings.wf(),
    ensures
        final(sys).wf(),
        ({
            let b = if irq < MAX_BOUND_IRQS {
                bindings.slots@[irq as int]
            } else {
                None
            };
            let ns = old(sys)@.pools.notifications;
            match b {
                Some(i) => if i < ns.len() && ns[i as int] is Some {
                    let n = ns[i as int]->Some_0;
                    &&& r
                    &&& final(sys)@ == with_pools(
                        old(sys)@,
                        PoolsView {
                            notifications: ns.update(
                                i as int,
                                Some(Notification { signals: n.signals | (1u32 << (irq % 32)), ..n }),
                            ),
                            ..old(sys)@.pools
                        },
                    )
                } else {
                    !r && final(sys)@ == old(sys)@
                },
                None => !r && final(sys)@ == old(sys)@,
            }
        }),
{
    let idx = match bindings.notification_for_irq(irq) {
        Some(i) => i,
        None => return false,
    };
    let n: Notification = match sys.pools.notifications.get(idx) {
        Some(n) => *n,
        None => return false,
    };
    let mut n2 = n;
    n2.signals = n.signals | (1u32 << (irq % 32));
    sys.pools.notifications.put(idx, n2);
    true
}

} // verus!
