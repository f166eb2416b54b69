use vstd::arithmetic::div_mod::{
    lemma_div_pos_is_pos, lemma_fundamental_div_mod, lemma_fundamental_div_mod_converse,
    lemma_mod_pos_bound,
};
use vstd::prelude::*;

verus! {

/// A point of the three-dimensional tile grid.
#[derive(Debug, Clone, Copy, PartialEq, Eq, Structural)]
pub struct TileCoord3 {
    pub x: i32,
    pub y: i32,
    pub z: i32,
}

impl TileCoord3 {
    pub fn new(x: i32, y: i32, z: i32) -> (r: Self)
        ensures
            r == (TileCoord3 { x, y, z }),
    {
        TileCoord3 { x, y, z }
    }
}

/// Why a box could not be built.
#[derive(Debug, Clone, Copy, PartialEq, Eq, Structural)]
pub enum BoxError {
    /// Some axis has `min > max`.
    InvalidBounds,
}

/// An axis-aligned box of tiles, inclusive at both corners.
#[derive(Debug, Clone, Copy, PartialEq, Eq, Structural)]
pub struct TileBox3 {
    pub min: TileCoord3,
    pub max: TileCoord3,
}

/// `min <= max` on every axis.
pub open spec fn ordered(min: TileCoord3, max: TileCoord3) -> bool {
    min.x <= max.x && min.y <= max.y && min.z <= max.z
}

/// Offsets `dx`, `dy`, `dz` sit at position `(dz * h + dy) * w + dx` of a z-major walk.
pub(crate) proof fn lemma_position_offsets(i: int, w: int, h: int, dx: int, dy: int, dz: int)
    requires
        w > 0,
        h > 0,
        0 <= dx < w,
        0 <= dy < h,
        0 <= dz,
        i == (dz * h + dy) * w + dx,
    ensures
        i % w == dx,
        (i / w) % h == dy,
        (i / w) / h == dz,
{
    lemma_fundamental_div_mod_converse(i, w, dz * h + dy, dx);
    lemma_fundamental_div_mod_converse(dz * h + dy, h, dz, dy);
}

/// Every position of a z-major walk splits back into its offsets.
proof fn lemma_position_split(i: int, w: int, h: int)
    requires
        w > 0,
        h > 0,
        i >= 0,
    ensures
        0 <= i % w < w,
        0 <= (i / w) % h < h,
        0 <= (i / w) / h,
        i == (((i / w) / h) * h + (i / w) % h) * w + i % w,
{
    let q = i / w;
    lemma_fundamental_div_mod(i, w);
    lemma_fundamental_div_mod(q, h);
    lemma_mod_pos_bound(i, w);
    lemma_div_pos_is_pos(i, w);
    lemma_mod_pos_bound(q, h);
    lemma_div_pos_is_pos(q, h);
    let dz = q / h;
    let dy = q % h;
    let dx = i % w;
    assert(i == (dz * h + dy) * w + dx) by (nonlinear_arith)
        requires
            i == w * q + dx,
            q == h * dz + dy,
    ;
}

/// Position `i` of the walk of a well-formed box is a tile of the box, and the position is
/// recovered from that tile's offsets.
proof fn lemma_tile_at(b: TileBox3, i: int)
    requires
        b.wf(),
        0 <= i < b.tile_count(),
    ensures
        b.spec_contains(b.tile_at(i)),
        b.tile_at(i).x - b.min.x == i % b.span_x(),
        b.tile_at(i).y - b.min.y == (i / b.span_x()) % b.span_y(),
        b.tile_at(i).z - b.min.z == (i / b.span_x()) / b.span_y(),
        i == (((b.tile_at(i).z - b.min.z) * b.span_y() + (b.tile_at(i).y - b.min.y)) * b.span_x()
            + (b.tile_at(i).x - b.min.x)),
{
    let w = b.span_x();
    let h = b.span_y();
    let l = b.span_z();
    lemma_position_split(i, w, h);
    let dz = (i / w) / h;
    let dy = (i / w) % h;
    let dx = i % w;
    assert(dz < l) by (nonlinear_arith)
        requires
            i == (dz * h + dy) * w + dx,
            0 <= dx,
            0 <= dy,
            0 <= dz,
            h > 0,
            w > 0,
            i < w * h * l,
    ;
}

impl TileBox3 {
    /// The box's corners are ordered on every axis.
    pub open spec fn wf(self) -> bool {
        ordered(self.min, self.max)
    }

    pub open spec fn spec_contains(self, c: TileCoord3) -> bool {
        self.min.x <= c.x <= self.max.x && self.min.y <= c.y <= self.max.y && self.min.z <= c.z
            <= self.max.z
    }

    pub open spec fn span_x(self) -> int {
        self.max.x - self.min.x + 1
    }

    pub open spec fn span_y(self) -> int {
        self.max.y - self.min.y + 1
    }

    pub open spec fn span_z(self) -> int {
        self.max.z - self.min.z + 1
    }

    /// Number of tiles in a well-formed box.
    pub open spec fn tile_count(self) -> int {
        self.span_x() * self.span_y() * self.span_z()
    }

    /// The tile at position `i` of the walk: z outermost, then y, then x.
    pub open spec fn tile_at(self, i: int) -> TileCoord3 {
        TileCoord3 {
            x: (self.min.x + i % self.span_x()) as i32,
            y: (self.min.y + (i / self.span_x()) % self.span_y()) as i32,
            z: (self.min.z + (i / self.span_x()) / self.span_y()) as i32,
        }
    }

    /// All tiles of the box in walk order; nothing for a box with unordered corners.
    pub open spec fn tiles(self) -> Seq<TileCoord3> {
        if self.wf() {
            Seq::new(self.tile_count() as nat, |i: int| self.tile_at(i))
        } else {
            Seq::empty()
        }
    }

    /// `c` lies on a bounding face of an axis along which the box is thicker than one tile.
    pub open spec fn on_border(self, c: TileCoord3) -> bool {
        (self.min.x != self.max.x && (c.x == self.min.x || c.x == self.max.x)) || (self.min.y
            != self.max.y && (c.y == self.min.y || c.y == self.max.y)) || (self.min.z
            != self.max.z && (c.z == self.min.z || c.z == self.max.z))
    }

    pub open spec fn border_pred(self) -> spec_fn(TileCoord3) -> bool {
        |c: TileCoord3| self.on_border(c)
    }

    /// The border tiles, in walk order.
    pub open spec fn border(self) -> Seq<TileCoord3> {
        self.tiles().filter(self.border_pred())
    }

    /// Builds a box, refusing corners that are not ordered on every axis.
    pub fn new(min: TileCoord3, max: TileCoord3) -> (r: Result<Self, BoxError>)
        ensures
            r == (if ordered(min, max) {
                Ok(TileBox3 { min, max })
            } else {
                Err(BoxError::InvalidBounds)
            }),
    {
        if min.x <= max.x && min.y <= max.y && min.z <= max.z {
            Ok(TileBox3 { min, max })
        } else {
            Err(BoxError::InvalidBounds)
        }
    }

    pub fn contains(&self, c: TileCoord3) -> (r: bool)
        ensures
            r == self.spec_contains(c),
    {
        c.x >= self.min.x && c.x <= self.max.x && c.y >= self.min.y && c.y <= self.max.y && c.z
            >= self.min.z && c.z <= self.max.z
    }

    pub fn width(&self) -> (r: i32)
        requires
            i32::MIN <= self.span_x() <= i32::MAX,
        ensures
            r == self.span_x(),
    {
        ((self.max.x as i64) - (self.min.x as i64) + 1) as i32
    }

    pub fn height(&self) -> (r: i32)
        requires
            i32::MIN <= self.span_y() <= i32::MAX,
        ensures
            r == self.span_y(),
    {
        ((self.max.y as i64) - (self.min.y as i64) + 1) as i32
    }

    pub fn levels(&self) -> (r: i32)
        requires
            i32::MIN <= self.span_z() <= i32::MAX,
        ensures
            r == self.span_z(),
    {
        ((self.max.z as i64) - (self.min.z as i64) + 1) as i32
    }

    /// Every tile of the box, z outermost, then y, then x.
    pub fn iter_tiles(&self) -> (r: Vec<TileCoord3>)
        ensures
            r@ == self.tiles(),
    {
        let mut r: Vec<TileCoord3> = Vec::new();
        if !(self.min.x <= self.max.x && self.min.y <= self.max.y && self.min.z <= self.max.z) {
            assert(r@ =~= self.tiles());
            return r;
        }
        let ghost w = self.span_x();
        let ghost h = self.span_y();
        let mut z: i64 = self.min.z as i64;
        assert(((z - self.min.z) * h) * w == 0) by (nonlinear_arith)
            requires
                z == self.min.z,
        ;
        while z <= self.max.z as i64
            invariant
                self.wf(),
                w == self.span_x(),
                h == self.span_y(),
                self.min.z <= z <= self.max.z + 1,
                r@.len() == ((z - self.min.z) * h) * w,
                forall|j: int| 0 <= j < r@.len() ==> r@[j] == self.tile_at(j),
            decreases self.max.z + 1 - z,
        {
            let mut y: i64 = self.min.y as i64;
            while y <= self.max.y as i64
                invariant
                    self.wf(),
                    w == self.span_x(),
                    h == self.span_y(),
                    self.min.z <= z <= self.max.z,
                    self.min.y <= y <= self.max.y + 1,
                    r@.len() == ((z - self.min.z) * h + (y - self.min.y)) * w,
                    forall|j: int| 0 <= j < r@.len() ==> r@[j] == self.tile_at(j),
                decreases self.max.y + 1 - y,
            {
                let mut x: i64 = self.min.x as i64;
                while x <= self.max.x as i64
                    invariant
                        self.wf(),
                        w == self.span_x(),
                        h == self.span_y(),
                        self.min.z <= z <= self.max.z,
                        self.min.y <= y <= self.max.y,
                        self.min.x <= x <= self.max.x + 1,
                        r@.len() == ((z - self.min.z) * h + (y - self.min.y)) * w + (x
                            - self.min.x),
                        forall|j: int| 0 <= j < r@.len() ==> r@[j] == self.tile_at(j),
                    decreases self.max.x + 1 - x,
                {
                    proof {
                        lemma_position_offsets(
                            r@.len() as int,
                            w,
                            h,
                            x - self.min.x,
                            y - self.min.y,
                            z - self.min.z,
                        );
                    }
                    r.push(TileCoord3 { x: x as i32, y: y as i32, z: z as i32 });
                    x = x + 1;
                }
                proof {
                    let q = (z - self.min.z) * h + (y - self.min.y);
                    assert(q * w + w == (q + 1) * w) by (nonlinear_arith);
                }
                y = y + 1;
            }
            proof {
                let dz = z - self.min.z;
                assert((dz * h + h) * w == ((dz + 1) * h) * w) by (nonlinear_arith);
            }
            z = z + 1;
        }
        proof {
            let l = self.span_z();
            assert((l * h) * w == w * h * l) by (nonlinear_arith);
            assert(r@ =~= self.tiles());
        }
        r
    }

    fn is_border(&self, c: TileCoord3) -> (r: bool)
        ensures
            r == self.on_border(c),
    {
        let has_x_thickness = self.min.x != self.max.x;
        let has_y_thickness = self.min.y != self.max.y;
        let has_z_thickness = self.min.z != self.max.z;
        (has_x_thickness && (c.x == self.min.x || c.x == self.max.x)) || (has_y_thickness && (c.y
            == self.min.y || c.y == self.max.y)) || (has_z_thickness && (c.z == self.min.z || c.z
            == self.max.z))
    }

    /// The tiles of `iter_tiles` that lie on a bounding face of a thick axis, in the same order.
    pub fn border_tiles(&self) -> (r: Vec<TileCoord3>)
        ensures
            r@ == self.border(),
    {
        let all = self.iter_tiles();
        let mut r: Vec<TileCoord3> = Vec::new();
        let mut i: usize = 0;
        while i < all.len()
            invariant
                all@ == self.tiles(),
                i <= all@.len(),
                r@ == all@.take(i as int).filter(self.border_pred()),
            decreases all@.len() - i,
        {
            let c = all[i];
            proof {
                assert(all@.take(i + 1) =~= all@.take(i as int).push(c));
                all@.take(i as int).lemma_filter_push(c, self.border_pred());
            }
            if self.is_border(c) {
                r.push(c);
            }
            i = i + 1;
        }
        assert(all@.take(i as int) =~= all@);
        r
    }
}

/// A well-formed box walks through `span_x * span_y * span_z` tiles, each of them once, and
/// these are exactly the tiles it contains.
pub proof fn lemma_tiles_exact(b: TileBox3)
    requires
        b.wf(),
    ensures
        b.tiles().len() == b.span_x() * b.span_y() * b.span_z(),
        b.tiles().no_duplicates(),
        forall|c: TileCoord3| b.tiles().contains(c) <==> b.spec_contains(c),
{
    let w = b.span_x();
    let h = b.span_y();
    let l = b.span_z();
    let s = b.tiles();
    assert(w * h * l >= 0) by (nonlinear_arith)
        requires
            w > 0,
            h > 0,
            l > 0,
    ;
    assert forall|i: int, j: int| 0 <= i < s.len() && 0 <= j < s.len() && i != j implies s[i]
        != s[j] by {
        lemma_tile_at(b, i);
        lemma_tile_at(b, j);
    }
    assert forall|c: TileCoord3| s.contains(c) <==> b.spec_contains(c) by {
        if s.contains(c) {
            let i = choose|i: int| 0 <= i < s.len() && s[i] == c;
            lemma_tile_at(b, i);
        }
        if b.spec_contains(c) {
            let dx = c.x - b.min.x;
            let dy = c.y - b.min.y;
            let dz = c.z - b.min.z;
            let i = (dz * h + dy) * w + dx;
            lemma_position_offsets(i, w, h, dx, dy, dz);
            assert(0 <= i < w * h * l) by (nonlinear_arith)
                requires
                    i == (dz * h + dy) * w + dx,
                    0 <= dx < w,
                    0 <= dy < h,
                    0 <= dz < l,
            ;
            assert(s[i] == c);
        }
    }
}

/// Dropping an element that fails `p` makes the filtered sequence shorter than the whole.
proof fn lemma_filter_shorter<A>(s: Seq<A>, p: spec_fn(A) -> bool, i: int)
    requires
        0 <= i < s.len(),
        !p(s[i]),
    ensures
        s.filter(p).len() < s.len(),
    decreases s.len(),
{
    reveal(Seq::filter);
    let rest = s.drop_last();
    rest.lemma_filter_len(p);
    if i < s.len() - 1 {
        lemma_filter_shorter(rest, p, i);
    }
}

/// A box that is not a single tile, and that is at least three tiles thick along each axis on
/// which it is thick at all, has fewer border tiles than tiles; every border tile lies on a
/// bounding face of an axis along which the box is thick.
pub proof fn lemma_border_shorter(b: TileBox3)
    requires
        b.wf(),
        b.min != b.max,
        b.min.x != b.max.x ==> b.max.x - b.min.x >= 2,
        b.min.y != b.max.y ==> b.max.y - b.min.y >= 2,
        b.min.z != b.max.z ==> b.max.z - b.min.z >= 2,
    ensures
        b.border().len() < b.tiles().len(),
        forall|i: int| 0 <= i < b.border().len() ==> b.on_border(#[trigger] b.border()[i]),
{
    lemma_tiles_exact(b);
    let inner = TileCoord3 {
        x: if b.min.x == b.max.x { b.min.x } else { (b.min.x + 1) as i32 },
        y: if b.min.y == b.max.y { b.min.y } else { (b.min.y + 1) as i32 },
        z: if b.min.z == b.max.z { b.min.z } else { (b.min.z + 1) as i32 },
    };
    assert(b.spec_contains(inner));
    assert(b.tiles().contains(inner));
    let i = choose|i: int| 0 <= i < b.tiles().len() && b.tiles()[i] == inner;
    lemma_filter_shorter(b.tiles(), b.border_pred(), i);
    assert forall|k: int| 0 <= k < b.border().len() implies b.on_border(#[trigger] b.border()[k]) by {
        b.tiles().lemma_filter_pred(b.border_pred(), k);
    }
}

} // verus!
