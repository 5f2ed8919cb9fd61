//! A generic key-value memory space, predating the region model and kept
//! for its callers: each address `A` identifies one datum `D`, unwritten
//! addresses read as a default value, and real storage is allocated only
//! on first mutable access.

use std::collections::HashMap;
use std::hash::Hash;
use vstd::prelude::*;

verus! {

broadcast use vstd::std_specs::hash::group_hash_axioms;

/// A dynamically allocated memory space over arbitrary addresses.
pub struct EmuMemory<A, D> {
    pub segments: HashMap<A, D>,
    pub default_data: D,
}

impl<A, D> EmuMemory<A, D> where A: Eq + Hash + Copy, D: Clone {
    /// An empty space in which every address reads as `default`.
    pub fn new(default: D) -> (m: EmuMemory<A, D>)
        ensures
            m.segments@ == Map::<A, D>::empty(),
            m.default_data == default,
    {
        EmuMemory { segments: HashMap::new(), default_data: default }
    }

    /// Every address is valid today; alignment constraints are not
    /// modeled yet.
    fn valid_address(&self, _addr: &A) -> (r: bool)
        ensures
            r,
    {
        true
    }

    /// The datum at `addr`: what was stored there, or the default for an
    /// address never written.  As with the underlying map, the contract
    /// speaks under a well-behaved key type.
    pub fn get(&self, addr: &A) -> (r: Option<&D>)
        ensures
            vstd::std_specs::hash::obeys_key_model::<A>() ==> (r matches Some(d) && *d == (
            if self.segments@.contains_key(*addr) {
                self.segments@[*addr]
            } else {
                self.default_data
            })),
    {
        if !self.valid_address(addr) {
            return None;
        }
        if let Some(data) = self.segments.get(addr) {
            Some(data)
        } else {
            Some(&self.default_data)
        }
    }

    /// Mutable access to `addr`: the datum is materialized from a clone
    /// of the default on first touch, so that a later `set` or `get`
    /// finds real storage; nothing already stored is disturbed.  `false`
    /// only for an invalid address, of which there are none today.
    pub fn get_mut(&mut self, addr: &A) -> (r: bool)
        ensures
            r,
            final(self).default_data == old(self).default_data,
            vstd::std_specs::hash::obeys_key_model::<A>() ==> {
                &&& final(self).segments@.contains_key(*addr)
                &&& (old(self).segments@.contains_key(*addr) ==> final(self).segments@ == old(
                    self,
                ).segments@)
                &&& (!old(self).segments@.contains_key(*addr) ==> final(self).segments@ == old(
                    self,
                ).segments@.insert(*addr, final(self).segments@[*addr]) && vstd::pervasive::cloned(
                    old(self).default_data,
                    final(self).segments@[*addr],
                ))
            },
    {
        if !self.valid_address(addr) {
            return false;
        }
        if let None = self.segments.get(addr) {
            let d = self.default_data.clone();
            self.segments.insert(*addr, d);
        }
        true
    }

    /// Store `data` at `addr`; `false` only for an invalid address, of
    /// which there are none today.
    pub fn set(&mut self, addr: &A, data: D) -> (r: bool)
        ensures
            r,
            final(self).default_data == old(self).default_data,
            vstd::std_specs::hash::obeys_key_model::<A>() ==> final(self).segments@ == old(
                self,
            ).segments@.insert(*addr, data),
    {
        if !self.valid_address(addr) {
            return false;
        }
        self.segments.insert(*addr, data);
        true
    }
}

} // verus!
