use vstd::prelude::*;

verus! {

/// What occupies one cell of the world.
#[derive(Debug, Clone, Copy, PartialEq, Eq, Structural)]
pub enum TileKind {
    Air,
    Stone,
    Iron,
    Wall,
    Floor,
}

/// What mining a tile hands over.
#[derive(Debug, Clone, Copy, PartialEq, Eq, Structural)]
pub enum ResourceYield {
    Stone(u32),
    Iron(u32),
}

impl TileKind {
    pub open spec fn spec_mineable(self) -> bool {
        self == TileKind::Stone || self == TileKind::Iron
    }

    /// One unit of stone for stone, one of iron for iron, nothing for the rest.
    pub open spec fn spec_yield(self) -> Option<ResourceYield> {
        match self {
            TileKind::Stone => Some(ResourceYield::Stone(1)),
            TileKind::Iron => Some(ResourceYield::Iron(1)),
            _ => None,
        }
    }

    pub fn is_mineable(self) -> (r: bool)
        ensures
            r == self.spec_mineable(),
    {
        match self {
            TileKind::Stone | TileKind::Iron => true,
            _ => false,
        }
    }

    pub fn mined_yield(self) -> (r: Option<ResourceYield>)
        ensures
            r == self.spec_yield(),
    {
        match self {
            TileKind::Stone => Some(ResourceYield::Stone(1)),
            TileKind::Iron => Some(ResourceYield::Iron(1)),
            _ => None,
        }
    }
}

} // verus!
