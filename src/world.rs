use crate::coords::{lemma_position_offsets, TileCoord3};
use crate::resources::Resources;
use crate::tile::{ResourceYield, TileKind};
use vstd::prelude::*;

verus! {

/// A dense grid of tiles, `width * height * levels` cells, with the colony's resources and the
/// core's health.
#[derive(Debug, Clone)]
pub struct World {
    width: i32,
    height: i32,
    levels: i32,
    tiles: Vec<TileKind>,
    pub resources: Resources,
    core_hp: u32,
    core_hp_max: u32,
}

/// `after` and `r` are what mining `c` in `before` gives: a stone or iron tile in bounds turns
/// to air and its yield goes to the resources; anything else leaves the world as it was and
/// yields nothing.
pub open spec fn mine_outcome(
    before: World,
    after: World,
    c: TileCoord3,
    r: Option<ResourceYield>,
) -> bool {
    &&& r == before.yield_at(c)
    &&& r is None ==> after == before
    &&& r matches Some(y) ==> {
        &&& after.wf()
        &&& after.same_frame(before)
        &&& after.spec_resources() == before.spec_resources().with_yield(y)
        &&& forall|d: TileCoord3|
            #[trigger] after.tile(d) == if d == c {
                Some(TileKind::Air)
            } else {
                before.tile(d)
            }
    }
}

/// Mining a stone tile in bounds turns it to air and adds exactly one stone, unless the stone
/// counter is already at its maximum; mining the same tile again yields nothing and changes
/// nothing.
pub proof fn lemma_mine_stone_twice(
    w0: World,
    w1: World,
    w2: World,
    c: TileCoord3,
    r1: Option<ResourceYield>,
    r2: Option<ResourceYield>,
)
    requires
        w0.wf(),
        w0.tile(c) == Some(TileKind::Stone),
        w0.spec_resources().stone < u32::MAX,
        mine_outcome(w0, w1, c, r1),
        mine_outcome(w1, w2, c, r2),
    ensures
        r1 == Some(ResourceYield::Stone(1)),
        w1.tile(c) == Some(TileKind::Air),
        w1.spec_resources().stone == w0.spec_resources().stone + 1,
        w1.spec_resources().iron == w0.spec_resources().iron,
        r2 is None,
        w2 == w1,
{
}

/// Mining out of bounds yields nothing and leaves the world, resources included, as it was.
pub proof fn lemma_mine_out_of_bounds(
    w0: World,
    w1: World,
    c: TileCoord3,
    r: Option<ResourceYield>,
)
    requires
        !w0.in_bounds(c),
        mine_outcome(w0, w1, c, r),
    ensures
        r is None,
        w1 == w0,
        w1.spec_resources() == w0.spec_resources(),
{
}

/// Where `(x, y, z)` sits in a flat grid of `width` by `height` layers.
pub open spec fn flat_index(width: int, height: int, x: int, y: int, z: int) -> int {
    (z * height + y) * width + x
}

impl World {
    pub closed spec fn spec_width(self) -> int {
        self.width as int
    }

    pub closed spec fn spec_height(self) -> int {
        self.height as int
    }

    pub closed spec fn spec_levels(self) -> int {
        self.levels as int
    }

    pub closed spec fn spec_resources(self) -> Resources {
        self.resources
    }

    /// Current and maximum health of the core.
    pub closed spec fn spec_core_hp(self) -> (u32, u32) {
        (self.core_hp, self.core_hp_max)
    }

    /// Number of cells stored.
    pub closed spec fn cell_count(self) -> int {
        self.tiles@.len() as int
    }

    /// The grid holds exactly one cell per coordinate in bounds.
    pub closed spec fn wf(self) -> bool {
        &&& self.width >= 0
        &&& self.height >= 0
        &&& self.levels >= 0
        &&& self.tiles@.len() == self.width * self.height * self.levels
    }

    pub open spec fn in_bounds(self, c: TileCoord3) -> bool {
        0 <= c.x < self.spec_width() && 0 <= c.y < self.spec_height() && 0 <= c.z
            < self.spec_levels()
    }

    /// The cell stored for `c`; meaningful where `c` is in bounds.
    pub closed spec fn cell(self, c: TileCoord3) -> TileKind {
        self.tiles@[flat_index(self.width as int, self.height as int, c.x as int, c.y as int, c.z as int)]
    }

    /// The tile at `c`, or nothing outside the grid.
    pub open spec fn tile(self, c: TileCoord3) -> Option<TileKind> {
        if self.in_bounds(c) {
            Some(self.cell(c))
        } else {
            None
        }
    }

    /// What mining `c` would yield.
    pub open spec fn yield_at(self, c: TileCoord3) -> Option<ResourceYield> {
        match self.tile(c) {
            Some(k) => k.spec_yield(),
            None => None,
        }
    }

    /// Same dimensions and core health.
    pub open spec fn same_frame(self, other: World) -> bool {
        &&& self.spec_width() == other.spec_width()
        &&& self.spec_height() == other.spec_height()
        &&& self.spec_levels() == other.spec_levels()
        &&& self.spec_core_hp() == other.spec_core_hp()
    }

    /// A grid of `width * height * levels` cells of `fill`, no resources, full core health of 100.
    pub fn new(width: i32, height: i32, levels: i32, fill: TileKind) -> (r: Self)
        requires
            width >= 0,
            height >= 0,
            levels >= 0,
            width * height * levels <= usize::MAX,
        ensures
            r.wf(),
            r.spec_width() == width,
            r.spec_height() == height,
            r.spec_levels() == levels,
            r.spec_resources() == (Resources { stone: 0, iron: 0 }),
            r.spec_core_hp() == (100u32, 100u32),
            forall|c: TileCoord3| r.in_bounds(c) ==> r.tile(c) == Some(fill),
    {
        let size: usize = if width == 0 || height == 0 || levels == 0 {
            0
        } else {
            proof {
                let (w, h, l) = (width as int, height as int, levels as int);
                assert(w * h <= w * h * l) by (nonlinear_arith)
                    requires
                        w > 0,
                        h > 0,
                        l > 0,
                ;
            }
            (width as usize) * (height as usize) * (levels as usize)
        };
        assert(size == width * height * levels) by (nonlinear_arith)
            requires
                size == (if width == 0 || height == 0 || levels == 0 {
                    0
                } else {
                    width * height * levels
                }),
        ;
        let mut tiles: Vec<TileKind> = Vec::new();
        while tiles.len() < size
            invariant
                tiles@.len() <= size,
                forall|i: int| 0 <= i < tiles@.len() ==> tiles@[i] == fill,
            decreases size - tiles@.len(),
        {
            tiles.push(fill);
        }
        let core_hp_max: u32 = 100;
        let r = World {
            width,
            height,
            levels,
            tiles,
            resources: Resources::new(),
            core_hp: core_hp_max,
            core_hp_max,
        };
        proof {
            assert forall|c: TileCoord3| r.in_bounds(c) implies r.tile(c) == Some(fill) by {
                r.lemma_index_in_range(c);
            }
        }
        r
    }

    /// The flat index of an in-bounds coordinate lies inside the grid.
    proof fn lemma_index_in_range(self, c: TileCoord3)
        requires
            self.wf(),
            self.in_bounds(c),
        ensures
            0 <= c.z * self.height + c.y < self.height * self.levels,
            0 <= flat_index(self.width as int, self.height as int, c.x as int, c.y as int, c.z as int)
                < self.tiles@.len(),
    {
        let (w, h, l) = (self.width as int, self.height as int, self.levels as int);
        let (x, y, z) = (c.x as int, c.y as int, c.z as int);
        assert(0 <= z * h + y < h * l && 0 <= (z * h + y) * w + x < w * h * l) by (nonlinear_arith)
            requires
                0 <= x < w,
                0 <= y < h,
                0 <= z < l,
        ;
    }

    /// Distinct in-bounds coordinates have distinct cells.
    proof fn lemma_index_injective(self, a: TileCoord3, b: TileCoord3)
        requires
            self.wf(),
            self.in_bounds(a),
            self.in_bounds(b),
            a != b,
        ensures
            flat_index(self.width as int, self.height as int, a.x as int, a.y as int, a.z as int)
                != flat_index(self.width as int, self.height as int, b.x as int, b.y as int, b.z as int),
    {
        let (w, h) = (self.width as int, self.height as int);
        let ia = flat_index(w, h, a.x as int, a.y as int, a.z as int);
        let ib = flat_index(w, h, b.x as int, b.y as int, b.z as int);
        lemma_position_offsets(ia, w, h, a.x as int, a.y as int, a.z as int);
        lemma_position_offsets(ib, w, h, b.x as int, b.y as int, b.z as int);
    }

    pub fn width(&self) -> (r: i32)
        ensures
            r == self.spec_width(),
    {
        self.width
    }

    pub fn height(&self) -> (r: i32)
        ensures
            r == self.spec_height(),
    {
        self.height
    }

    pub fn levels(&self) -> (r: i32)
        ensures
            r == self.spec_levels(),
    {
        self.levels
    }

    /// Current and maximum health of the core.
    pub fn core_hp(&self) -> (r: (u32, u32))
        ensures
            r == self.spec_core_hp(),
    {
        (self.core_hp, self.core_hp_max)
    }

    /// The position of `c` in the grid, or nothing when `c` is out of bounds.
    pub fn index(&self, c: TileCoord3) -> (r: Option<usize>)
        requires
            self.wf(),
        ensures
            !self.in_bounds(c) ==> r is None,
            self.in_bounds(c) ==> (r matches Some(i) && i == flat_index(
                self.spec_width(),
                self.spec_height(),
                c.x as int,
                c.y as int,
                c.z as int,
            ) && i < self.cell_count()),
    {
        if c.x < 0 || c.y < 0 || c.z < 0 || c.x >= self.width || c.y >= self.height || c.z
            >= self.levels {
            return None;
        }
        let len = self.tiles.len();
        proof {
            let (w, h, l) = (self.width as int, self.height as int, self.levels as int);
            let (x, y, z) = (c.x as int, c.y as int, c.z as int);
            assert(z * h + y < h * l <= w * h * l && z * h <= z * h + y && (z * h + y) * w <= (z
                * h + y) * w + x < w * h * l) by (nonlinear_arith)
                requires
                    0 <= x < w,
                    0 <= y < h,
                    0 <= z < l,
            ;
        }
        let row = (c.z as usize) * (self.height as usize) + (c.y as usize);
        Some(row * (self.width as usize) + (c.x as usize))
    }

    pub fn get_tile(&self, c: TileCoord3) -> (r: Option<TileKind>)
        requires
            self.wf(),
        ensures
            r == self.tile(c),
    {
        match self.index(c) {
            Some(i) => Some(self.tiles[i]),
            None => None,
        }
    }

    /// Writes `k` at `c`; a coordinate out of bounds changes nothing.
    pub fn set_tile(&mut self, c: TileCoord3, k: TileKind)
        requires
            old(self).wf(),
        ensures
            final(self).wf(),
            final(self).same_frame(*old(self)),
            final(self).spec_resources() == old(self).spec_resources(),
            forall|d: TileCoord3|
                #[trigger] final(self).tile(d) == if d == c && old(self).in_bounds(c) {
                    Some(k)
                } else {
                    old(self).tile(d)
                },
    {
        if let Some(i) = self.index(c) {
            self.tiles.set(i, k);
            proof {
                assert forall|d: TileCoord3| #[trigger] self.tile(d) == if d == c {
                    Some(k)
                } else {
                    old(self).tile(d)
                } by {
                    if d != c && self.in_bounds(d) {
                        old(self).lemma_index_injective(c, d);
                        old(self).lemma_index_in_range(d);
                    }
                }
            }
        }
    }

    /// Mines `c`: a stone or iron tile in bounds turns to air and its yield goes to the
    /// resources; anything else leaves the world as it was and yields nothing.
    pub fn mine_tile(&mut self, c: TileCoord3) -> (r: Option<ResourceYield>)
        requires
            old(self).wf(),
        ensures
            mine_outcome(*old(self), *final(self), c, r),
    {
        let i = match self.index(c) {
            Some(i) => i,
            None => return None,
        };
        let k = self.tiles[i];
        match k.mined_yield() {
            Some(y) => {
                self.tiles.set(i, TileKind::Air);
                match y {
                    ResourceYield::Stone(n) => self.resources.add_stone(n),
                    ResourceYield::Iron(n) => self.resources.add_iron(n),
                }
                proof {
                    assert forall|d: TileCoord3| #[trigger] self.tile(d) == if d == c {
                        Some(TileKind::Air)
                    } else {
                        old(self).tile(d)
                    } by {
                        if d != c && self.in_bounds(d) {
                            old(self).lemma_index_injective(c, d);
                            old(self).lemma_index_in_range(d);
                        }
                    }
                }
                Some(y)
            },
            None => None,
        }
    }
}

} // verus!
