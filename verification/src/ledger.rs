//! Bookkeeping model of the allocator's ownership contract.
//!
//! Every raw buffer the module hands out is a (address, size) pair that must
//! come back exactly once, with its original size, to the release operation.
//! The module itself keeps no record — release reconstructs the allocation
//! from the size alone — so an instrumented harness drives this ledger beside
//! the raw operations to check the protocol: it records each allocation and
//! presents each release, and the ledger accepts a release exactly when the
//! address is outstanding with that size (a null address or zero size is the
//! defined no-op). A balanced run leaves the ledger empty: nothing leaked,
//! nothing released twice.
use std::collections::HashMap;
use vstd::prelude::*;

verus! {

broadcast use vstd::std_specs::hash::group_hash_axioms;

/// The outstanding allocations, as a map from address to the size handed out
/// when the buffer was allocated.
pub struct Ledger {
    entries: HashMap<usize, usize>,
}

impl View for Ledger {
    type V = Map<usize, usize>;

    closed spec fn view(&self) -> Map<usize, usize> {
        self.entries@
    }
}

impl Ledger {
    /// A fresh ledger: no allocation is outstanding.
    pub fn new() -> (r: Ledger)
        ensures
            r@ == Map::<usize, usize>::empty(),
    {
        Ledger { entries: HashMap::new() }
    }

    /// Records a buffer handed out at `addr` with `size` bytes. An allocator
    /// never returns an address that is still outstanding, so recording one
    /// twice is outside the protocol.
    pub fn record_alloc(&mut self, addr: usize, size: usize)
        requires
            addr != 0,
            !old(self)@.contains_key(addr),
        ensures
            final(self)@ == old(self)@.insert(addr, size),
    {
        self.entries.insert(addr, size);
    }

    /// Presents a release. A null address or zero size is the defined no-op;
    /// otherwise the release is accepted exactly when `addr` is outstanding
    /// with exactly `size` — so a double release, or a release with a
    /// mismatched size, is refused and leaves the ledger unchanged.
    pub fn record_release(&mut self, addr: usize, size: usize) -> (ok: bool)
        ensures
            addr == 0 || size == 0 ==> ok && final(self)@ == old(self)@,
            addr != 0 && size != 0 ==> ok == (old(self)@.contains_key(addr) && old(
                self,
            )@[addr] == size),
            addr != 0 && size != 0 && ok ==> final(self)@ == old(self)@.remove(addr),
            !ok ==> final(self)@ == old(self)@,
    {
        if addr == 0 || size == 0 {
            return true;
        }
        let recorded = match self.entries.get(&addr) {
            Some(s) => *s,
            None => {
                return false;
            },
        };
        if recorded == size {
            self.entries.remove(&addr);
            true
        } else {
            false
        }
    }

    /// How many allocations are still outstanding.
    pub fn outstanding_count(&self) -> (n: usize)
        ensures
            n == self@.len(),
    {
        self.entries.len()
    }

    /// Whether every allocation has been released: the balanced state.
    pub fn is_balanced(&self) -> (r: bool)
        ensures
            r == self@.is_empty(),
            r ==> self@ == Map::<usize, usize>::empty(),
    {
        let r = self.entries.is_empty();
        proof {
            if self@.is_empty() {
                assert(self@ =~= Map::<usize, usize>::empty());
            }
        }
        r
    }
}

/// Allocator balance: a release matched to an outstanding allocation restores
/// the ledger exactly — the pair leaks nothing — and leaves the handle no
/// longer outstanding, so presenting it again is refused.
pub proof fn lemma_alloc_release_balances(m: Map<usize, usize>, addr: usize, size: usize)
    requires
        addr != 0,
        size != 0,
        !m.contains_key(addr),
    ensures
        m.insert(addr, size).remove(addr) == m,
        !m.insert(addr, size).remove(addr).contains_key(addr),
{
    assert(m.insert(addr, size).remove(addr) =~= m);
}

} // verus!
