use crate::tile::ResourceYield;
use vstd::prelude::*;

verus! {

/// `a + n`, held at `u32::MAX`.
pub open spec fn sat_add(a: u32, n: nat) -> u32 {
    if a + n > u32::MAX {
        u32::MAX
    } else {
        (a + n) as u32
    }
}

/// Harvested materials; the counters only grow, and stop at `u32::MAX`.
#[derive(Debug, Clone, Copy, PartialEq, Eq, Structural)]
pub struct Resources {
    pub stone: u32,
    pub iron: u32,
}

impl Resources {
    /// The ledger after a yield has been added to it.
    pub open spec fn with_yield(self, y: ResourceYield) -> Resources {
        match y {
            ResourceYield::Stone(n) => Resources { stone: sat_add(self.stone, n as nat), ..self },
            ResourceYield::Iron(n) => Resources { iron: sat_add(self.iron, n as nat), ..self },
        }
    }

    pub fn new() -> (r: Self)
        ensures
            r == (Resources { stone: 0, iron: 0 }),
    {
        Resources { stone: 0, iron: 0 }
    }

    pub fn add_stone(&mut self, amount: u32)
        ensures
            final(self).stone == sat_add(old(self).stone, amount as nat),
            final(self).iron == old(self).iron,
    {
        self.stone = self.stone.saturating_add(amount);
    }

    pub fn add_iron(&mut self, amount: u32)
        ensures
            final(self).iron == sat_add(old(self).iron, amount as nat),
            final(self).stone == old(self).stone,
    {
        self.iron = self.iron.saturating_add(amount);
    }
}

impl Default for Resources {
    fn default() -> (r: Self)
        ensures
            r == (Resources { stone: 0, iron: 0 }),
    {
        Resources::new()
    }
}

} // verus!
