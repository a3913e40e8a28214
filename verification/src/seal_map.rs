//! The seals which are open in a consignment, by the address of the cell they protect.
use std::collections::BTreeMap;

use vstd::prelude::*;

use crate::ids::CellAddress;

verus! {

broadcast use vstd::laws_cmp::group_laws_cmp;

/// Seals by the address of the memory cell which they protect.
#[verifier::reject_recursive_types(Seal)]
pub struct SealMap<Seal> {
    map: BTreeMap<(u128, u128, u16), Seal>,
}

impl<Seal> View for SealMap<Seal> {
    type V = Map<CellAddress, Seal>;

    closed spec fn view(&self) -> Map<CellAddress, Seal> {
        Map::new(
            |addr: CellAddress| self.map@.contains_key(addr.spec_key()),
            |addr: CellAddress| self.map@[addr.spec_key()],
        )
    }
}

impl<Seal> SealMap<Seal> {
    /// Makes a map without seals.
    pub fn new() -> (seals: Self)
        ensures
            seals@ == Map::<CellAddress, Seal>::empty(),
    {
        let seals = SealMap { map: BTreeMap::new() };
        assert(seals@ =~= Map::<CellAddress, Seal>::empty());
        seals
    }

    /// Puts the seal of a cell, in place of the one which was there.
    pub fn insert(&mut self, addr: CellAddress, seal: Seal)
        ensures
            final(self)@ == old(self)@.insert(addr, seal),
    {
        self.map.insert(addr.key(), seal);
        assert(self@ =~= old(self)@.insert(addr, seal)) by {
            assert forall|a: CellAddress| a.spec_key() == addr.spec_key() implies a == addr by {}
        }
    }

    /// Takes the seal of a cell out of the map, if it is there.
    pub fn remove(&mut self, addr: &CellAddress) -> (seal: Option<Seal>)
        ensures
            final(self)@ == old(self)@.remove(*addr),
            seal == (if old(self)@.contains_key(*addr) {
                Some(old(self)@[*addr])
            } else {
                None
            }),
    {
        let seal = self.map.remove(&addr.key());
        assert(self@ =~= old(self)@.remove(*addr)) by {
            assert forall|a: CellAddress| a.spec_key() == addr.spec_key() implies a == *addr by {}
        }
        seal
    }
}

} // verus!
