//! Path sizes learned from ICMP.
use std::collections::HashMap;

use vstd::prelude::*;

verus! {

/// What an ICMP message led to.
#[derive(Debug, Clone, Copy, PartialEq, Eq, Structural)]
pub enum IcmpResult {
    /// The path to a peer carries less than was known.
    FragNeededPmtuUpdated,
    /// The message told nothing smaller than was known.
    FragNeededNoShrink,
    OtherDropped,
    Malformed,
}

/// The largest packet that the path to an address carries, where it is known.
pub struct PmtuTable {
    pub sizes: HashMap<u32, u16>,
}

impl View for PmtuTable {
    type V = Map<u32, u16>;

    open spec fn view(&self) -> Map<u32, u16> {
        self.sizes@
    }
}

impl PmtuTable {
    /// Nothing is known.
    pub fn new() -> (r: Self)
        ensures
            r@ == Map::<u32, u16>::empty(),
    {
        PmtuTable { sizes: HashMap::new() }
    }

    /// The size known for an address.
    pub fn get(&self, ip: u32) -> (r: Option<u16>)
        ensures
            r == (if self@.contains_key(ip) {
                Some(self@[ip])
            } else {
                None
            }),
    {
        broadcast use vstd::std_specs::hash::group_hash_axioms;

        match self.sizes.get(&ip) {
            Some(m) => Some(*m),
            None => None,
        }
    }

    /// Takes over a size that is smaller than the one known, if any; says
    /// whether it was.
    pub fn shrink(&mut self, ip: u32, mtu: u16) -> (r: bool)
        ensures
            r == !(old(self)@.contains_key(ip) && old(self)@[ip] <= mtu),
            final(self)@ == (if r {
                old(self)@.insert(ip, mtu)
            } else {
                old(self)@
            }),
    {
        broadcast use vstd::std_specs::hash::group_hash_axioms;

        let known: Option<u16> = self.get(ip);
        match known {
            Some(m) => {
                if m <= mtu {
                    return false;
                }
            },
            None => {},
        }
        let _ = self.sizes.insert(ip, mtu);
        true
    }
}

} // verus!
