//! How tiles lie in the world.

use crate::geom::{abs_int, clamp_int, fits, max_int, Aabr, Vec2};
use crate::plot::PlotKind;
use crate::site::Site;
use crate::tile::{Tile, TILE_SIZE};
use vstd::prelude::*;

verus! {

/// The coordinate of the tile that a block lies in, from the block's own coordinate and that of
/// the first block of tile 0.
pub open spec fn tile_of_block(origin: int, block: int) -> int {
    (block - origin) / (TILE_SIZE as int)
}

/// The coordinate of the first block of a tile.
pub open spec fn block_of_tile(origin: int, tile: int) -> int {
    origin + tile * TILE_SIZE
}

pub(crate) fn tile_coord(origin: i32, block: i64) -> (r: i32)
    requires
        -0x1_0000_0000 <= block <= 0x1_0000_0000,
    ensures
        r == tile_of_block(origin as int, block as int),
{
    let d: i64 = block - origin as i64;
    if d >= 0 {
        (d / 6) as i32
    } else {
        (-((-(d + 1)) / 6) - 1) as i32
    }
}

fn block_coord(origin: i32, tile: i64) -> (r: i64)
    requires
        -0x1_0000_0000 <= tile <= 0x1_0000_0000,
    ensures
        r == block_of_tile(origin as int, tile as int),
{
    origin as i64 + tile * 6
}

/// How far a position is from the blocks of the tile at `(x, y)`, squared.
pub open spec fn distance_to_tile_squared(origin: Vec2, x: int, y: int, wpos: Vec2) -> int {
    let bx = block_of_tile(origin.x as int, x);
    let by = block_of_tile(origin.y as int, y);
    let dx = clamp_int(wpos.x as int, bx, bx + TILE_SIZE - 1) - wpos.x;
    let dy = clamp_int(wpos.y as int, by, by + TILE_SIZE - 1) - wpos.y;
    dx * dx + dy * dy
}

impl Site {
    /// Whether the corner of a tile has a representable position.
    pub open spec fn tile_wpos_fits(self, tile: Vec2) -> bool {
        fits(block_of_tile(self.origin.x as int, tile.x as int)) && fits(
            block_of_tile(self.origin.y as int, tile.y as int),
        )
    }

    /// The tile that a world position lies in.
    pub fn wpos_tile_pos(&self, wpos2d: Vec2) -> (r: Vec2)
        ensures
            r.x == tile_of_block(self.origin.x as int, wpos2d.x as int),
            r.y == tile_of_block(self.origin.y as int, wpos2d.y as int),
    {
        Vec2 {
            x: tile_coord(self.origin.x, wpos2d.x as i64),
            y: tile_coord(self.origin.y, wpos2d.y as i64),
        }
    }

    /// What is on the tile that a world position lies in.
    pub fn wpos_tile(&self, wpos2d: Vec2) -> (r: Tile)
        ensures
            r == self.tiles.at(
                tile_of_block(self.origin.x as int, wpos2d.x as int),
                tile_of_block(self.origin.y as int, wpos2d.y as int),
            ),
    {
        self.tiles.get(self.wpos_tile_pos(wpos2d))
    }

    /// The world position of the corner of a tile.
    pub fn tile_wpos(&self, tile: Vec2) -> (r: Vec2)
        requires
            self.tile_wpos_fits(tile),
        ensures
            r.x == block_of_tile(self.origin.x as int, tile.x as int),
            r.y == block_of_tile(self.origin.y as int, tile.y as int),
    {
        Vec2 {
            x: block_coord(self.origin.x, tile.x as i64) as i32,
            y: block_coord(self.origin.y, tile.y as i64) as i32,
        }
    }

    /// The world position of the middle of a tile.
    pub fn tile_center_wpos(&self, tile: Vec2) -> (r: Vec2)
        requires
            fits(block_of_tile(self.origin.x as int, tile.x as int) + TILE_SIZE / 2),
            fits(block_of_tile(self.origin.y as int, tile.y as int) + TILE_SIZE / 2),
        ensures
            r.x == block_of_tile(self.origin.x as int, tile.x as int) + TILE_SIZE / 2,
            r.y == block_of_tile(self.origin.y as int, tile.y as int) + TILE_SIZE / 2,
    {
        Vec2 {
            x: (block_coord(self.origin.x, tile.x as i64) + 3) as i32,
            y: (block_coord(self.origin.y, tile.y as i64) + 3) as i32,
        }
    }

    /// How far a position is from the blocks of the tile at `(x, y)`, squared.
    pub fn tile_distance_squared(&self, x: i64, y: i64, wpos: Vec2) -> (r: i128)
        requires
            -0x1_0000_0000 <= x <= 0x1_0000_0000,
            -0x1_0000_0000 <= y <= 0x1_0000_0000,
        ensures
            r == distance_to_tile_squared(self.origin, x as int, y as int, wpos),
            0 <= r,
    {
        let bx: i64 = block_coord(self.origin.x, x);
        let by: i64 = block_coord(self.origin.y, y);
        let px: i64 = wpos.x as i64;
        let py: i64 = wpos.y as i64;
        let dx: i64 = if px < bx {
            bx - px
        } else if px > bx + 5 {
            bx + 5 - px
        } else {
            0
        };
        let dy: i64 = if py < by {
            by - py
        } else if py > by + 5 {
            by + 5 - py
        } else {
            0
        };
        let dx: i128 = dx as i128;
        let dy: i128 = dy as i128;
        assert(dx * dx + dy * dy <= 2 * 0x10_0000_0000 * 0x10_0000_0000 && dx * dx >= 0 && dy * dy
            >= 0) by (nonlinear_arith)
            requires
                -0x10_0000_0000 <= dx <= 0x10_0000_0000,
                -0x10_0000_0000 <= dy <= 0x10_0000_0000,
        ;
        dx * dx + dy * dy
    }

    /// The world area of the site: all tiles within the bounds and one tile around them.
    pub fn bounds(&self) -> (r: Aabr)
        requires
            fits(block_of_tile(self.origin.x as int, self.tiles.bounds.min.x - 1)),
            fits(block_of_tile(self.origin.y as int, self.tiles.bounds.min.y - 1)),
            fits(block_of_tile(self.origin.x as int, self.tiles.bounds.max.x + 2)),
            fits(block_of_tile(self.origin.y as int, self.tiles.bounds.max.y + 2)),
        ensures
            r.min.x == block_of_tile(self.origin.x as int, self.tiles.bounds.min.x - 1),
            r.min.y == block_of_tile(self.origin.y as int, self.tiles.bounds.min.y - 1),
            r.max.x == block_of_tile(self.origin.x as int, self.tiles.bounds.max.x + 2),
            r.max.y == block_of_tile(self.origin.y as int, self.tiles.bounds.max.y + 2),
    {
        let b = self.tiles.bounds;
        Aabr {
            min: Vec2 {
                x: block_coord(self.origin.x, b.min.x as i64 - 1) as i32,
                y: block_coord(self.origin.y, b.min.y as i64 - 1) as i32,
            },
            max: Vec2 {
                x: block_coord(self.origin.x, b.max.x as i64 + 2) as i32,
                y: block_coord(self.origin.y, b.max.y as i64 + 2) as i32,
            },
        }
    }

    /// Whether a giant tree grows here.
    pub open spec fn has_giant_tree(self) -> bool {
        exists|i: int| 0 <= i < self.plots@.len() && (#[trigger] self.plots@[i]).kind is GiantTree
    }

    fn is_giant_tree_here(&self) -> (r: bool)
        ensures
            r == self.has_giant_tree(),
    {
        let mut i: usize = 0;
        while i < self.plots.len()
            invariant
                i <= self.plots@.len(),
                forall|j: int| 0 <= j < i ==> !((#[trigger] self.plots@[j]).kind is GiantTree),
            decreases self.plots@.len() - i,
        {
            if matches!(&self.plots[i].kind, PlotKind::GiantTree) {
                return true;
            }
            i = i + 1;
        }
        false
    }

    /// How far the bounds reach from the middle, in tiles.
    pub open spec fn reach(self) -> int {
        let b = self.tiles.bounds;
        max_int(
            max_int(abs_int(b.min.x as int), abs_int(b.min.y as int)),
            max_int(abs_int(b.max.x as int), abs_int(b.max.y as int)),
        )
    }

    /// The distance from the middle, in blocks, within which the site can be seen: how far the
    /// bounds reach and some tiles more, many more with a giant tree.
    pub open spec fn spec_radius(self) -> int {
        (self.reach() + if self.has_giant_tree() {
            25int
        } else {
            5int
        }) * TILE_SIZE
    }

    pub fn radius(&self) -> (r: i32)
        requires
            fits(self.spec_radius()),
        ensures
            r == self.spec_radius(),
    {
        let b = self.tiles.bounds;
        let mut reach: i64 = 0;
        reach = Self::farther(reach, b.min.x);
        reach = Self::farther(reach, b.min.y);
        reach = Self::farther(reach, b.max.x);
        reach = Self::farther(reach, b.max.y);
        let margin: i64 = if self.is_giant_tree_here() {
            25
        } else {
            5
        };
        ((reach + margin) * 6) as i32
    }

    fn farther(reach: i64, v: i32) -> (r: i64)
        ensures
            r == max_int(reach as int, abs_int(v as int)),
    {
        let v: i64 = v as i64;
        let a: i64 = if v >= 0 {
            v
        } else {
            -v
        };
        if reach >= a {
            reach
        } else {
            a
        }
    }
}

} // verus!
