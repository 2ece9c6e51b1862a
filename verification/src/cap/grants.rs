//! Optional authorities a runtime-loaded module may be granted on top
//! of its baseline (stdout and exit), and their attenuation against a
//! policy ceiling.

use vstd::prelude::*;

verus! {

/// A set of optional authorities, one bit each.
#[derive(Debug, Clone, Copy, PartialEq, Eq, Structural)]
pub struct GrantSpec(pub u32);

/// Bit for read access to the audit stream.
pub const GRANT_EVENTLOG: u32 = 1;
/// Bit for the network.
pub const GRANT_NET: u32 = 2;

impl GrantSpec {
    /// No optional authority.
    pub fn empty() -> (r: Self)
        ensures
            r.0 == 0,
    {
        GrantSpec(0)
    }

    /// Read access to the audit stream.
    pub fn eventlog() -> (r: Self)
        ensures
            r.0 == GRANT_EVENTLOG,
    {
        GrantSpec(GRANT_EVENTLOG)
    }

    /// The network.
    pub fn net() -> (r: Self)
        ensures
            r.0 == GRANT_NET,
    {
        GrantSpec(GRANT_NET)
    }

    /// The union of two sets.
    pub fn with(self, other: GrantSpec) -> (r: Self)
        ensures
            r.0 == self.0 | other.0,
    {
        GrantSpec(self.0 | other.0)
    }

    /// What may be granted of this request under `ceiling`: the
    /// intersection.
    pub fn attenuate(self, ceiling: GrantSpec) -> (r: Self)
        ensures
            r.0 == self.0 & ceiling.0,
    {
        GrantSpec(self.0 & ceiling.0)
    }

    /// What of this request `granted` withholds.
    pub fn denied(self, granted: GrantSpec) -> (r: Self)
        ensures
            r.0 == self.0 & !granted.0,
    {
        GrantSpec(self.0 & !granted.0)
    }

    /// Is the set empty?
    pub fn is_empty(self) -> (r: bool)
        ensures
            r == (self.0 == 0),
    {
        self.0 == 0
    }

    /// The raw bits.
    pub fn bits(self) -> (r: u32)
        ensures
            r == self.0,
    {
        self.0
    }

    /// Does the set hold every bit of `other`?
    pub fn contains(self, other: GrantSpec) -> (r: bool)
        ensures
            r == (self.0 & other.0 == other.0),
    {
        self.0 & other.0 == other.0
    }
}

/// Attenuation never grants more than was requested nor more than the
/// ceiling allows, and what is withheld together with what is granted
/// makes up the request.
pub proof fn lemma_attenuation_monotone(requested: u32, ceiling: u32)
    ensures
        (requested & ceiling) & !requested == 0,
        (requested & ceiling) & !ceiling == 0,
        ((requested & ceiling) | (requested & !(requested & ceiling))) == requested,
        (requested & ceiling) & (requested & !(requested & ceiling)) == 0,
{
    assert((requested & ceiling) & !requested == 0) by (bit_vector);
    assert((requested & ceiling) & !ceiling == 0) by (bit_vector);
    assert(((requested & ceiling) | (requested & !(requested & ceiling))) == requested) by (bit_vector);
    assert((requested & ceiling) & (requested & !(requested & ceiling)) == 0) by (bit_vector);
}

} // verus!
