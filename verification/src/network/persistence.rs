//! The network state kept between runs: the known peers' addresses, as
//! text, and the evidence packages.

use vstd::prelude::*;
use crate::network::epa::{same_epa, SharedEPA};

verus! {

/// The persisted network state.
#[derive(Debug)]
pub struct PersistedData {
    pub peers: Vec<String>,
    pub epas: Vec<SharedEPA>,
}

/// Two persisted states hold the same peers and packages.
pub open spec fn same_data(a: PersistedData, b: PersistedData) -> bool {
    &&& a.peers@.map_values(|s: String| s@) == b.peers@.map_values(|s: String| s@)
    &&& a.epas@.len() == b.epas@.len()
    &&& forall|i: int| 0 <= i < a.epas@.len() ==> same_epa(#[trigger] a.epas@[i], b.epas@[i])
}

impl Default for PersistedData {
    fn default() -> (d: Self)
        ensures
            d.peers@.len() == 0,
            d.epas@.len() == 0,
    {
        PersistedData { peers: Vec::new(), epas: Vec::new() }
    }
}

impl PersistedData {
    /// A state with the same peers and packages.
    pub fn copy(&self) -> (c: PersistedData)
        ensures
            same_data(c, *self),
    {
        let mut peers: Vec<String> = Vec::new();
        let mut i: usize = 0;
        while i < self.peers.len()
            invariant
                i <= self.peers.len(),
                peers@.len() == i,
                forall|j: int| 0 <= j < i ==> #[trigger] peers@[j]@ == self.peers@[j]@,
            decreases self.peers.len() - i,
        {
            peers.push(self.peers[i].clone());
            i += 1;
        }
        let mut epas: Vec<SharedEPA> = Vec::new();
        let mut k: usize = 0;
        while k < self.epas.len()
            invariant
                k <= self.epas.len(),
                epas@.len() == k,
                forall|j: int| 0 <= j < k ==> same_epa(#[trigger] epas@[j], self.epas@[j]),
            decreases self.epas.len() - k,
        {
            epas.push(self.epas[k].copy());
            k += 1;
        }
        let c = PersistedData { peers, epas };
        assert(c.peers@.map_values(|s: String| s@) =~= self.peers@.map_values(|s: String| s@));
        c
    }
}

} // verus!
