//! The grid of tiles that a site is laid out on.

use crate::geom::{max_int, min_int, Aabr, Dir, Vec2};
use crate::plot::Id;
use std::collections::HashMap;
use vstd::prelude::*;

verus! {

/// The length of a tile's side, in blocks.
pub const TILE_SIZE: i32 = 6;

/// The lowest coordinate of a stored tile.
pub const GRID_MIN: i32 = -256;

/// One more than the highest coordinate of a stored tile.
pub const GRID_MAX: i32 = 272;

/// What makes a tile unfit to build on.
#[derive(Clone, Copy, PartialEq, Eq, Structural, Debug, Hash)]
pub enum HazardKind {
    Water,
    /// A slope, with the bits of the `f32` that says how steep it is.
    Hill { gradient_bits: u32 },
}

#[derive(Clone, Copy, PartialEq, Eq, Structural, Debug, Hash)]
pub enum KeepKind {
    Middle,
    Corner,
    Wall(Dir),
}

#[derive(Clone, Copy, PartialEq, Eq, Structural, Debug, Hash)]
pub enum RoofKind {
    Parapet,
    Pyramid,
}

/// What covers a tile.
#[derive(Clone, Copy, PartialEq, Eq, Structural, Debug, Hash)]
pub enum TileKind {
    Empty,
    Hazard(HazardKind),
    Field,
    Plaza,
    /// A stretch of road of width `w`, from node `a` to node `b` of the road's path.
    Road { a: u16, b: u16, w: u16 },
    Path,
    Building,
    Castle,
    Wall(Dir),
    Tower(RoofKind),
    Keep(KeepKind),
    Gate,
    GnarlingFortification,
    Bridge,
    AdletStronghold,
}

/// One tile: what covers it, the plot that it belongs to, and the altitude that it is held at.
#[derive(Clone, Copy, PartialEq, Eq, Structural, Debug, Hash)]
pub struct Tile {
    pub kind: TileKind,
    pub plot: Option<Id>,
    pub hard_alt: Option<i32>,
}

pub open spec fn empty_tile() -> Tile {
    Tile { kind: TileKind::Empty, plot: None, hard_alt: None }
}

impl Tile {
    pub fn empty() -> (r: Tile)
        ensures
            r == empty_tile(),
    {
        Tile { kind: TileKind::Empty, plot: None, hard_alt: None }
    }

    pub open spec fn spec_is_empty(self) -> bool {
        self.kind is Empty
    }

    /// Whether nothing covers the tile.
    pub fn is_empty(&self) -> (r: bool)
        ensures
            r == self.spec_is_empty(),
    {
        matches!(self.kind, TileKind::Empty)
    }

    pub open spec fn spec_is_natural(self) -> bool {
        self.kind is Empty || self.kind is Hazard || self.kind is AdletStronghold
    }

    /// Whether the ground of the tile is left as it was found.
    pub fn is_natural(&self) -> (r: bool)
        ensures
            r == self.spec_is_natural(),
    {
        matches!(self.kind, TileKind::Empty | TileKind::Hazard(_) | TileKind::AdletStronghold)
    }

    pub open spec fn spec_is_road(self) -> bool {
        self.kind is Plaza || self.kind is Road || self.kind is Path
    }

    /// Whether one can walk up to a door over the tile.
    pub fn is_road(&self) -> (r: bool)
        ensures
            r == self.spec_is_road(),
    {
        matches!(self.kind, TileKind::Plaza | TileKind::Road { .. } | TileKind::Path)
    }

    pub open spec fn spec_is_building(self) -> bool {
        ||| self.kind is Building
        ||| self.kind is Castle
        ||| self.kind is Wall
        ||| self.kind is Tower
        ||| self.kind is Keep
        ||| self.kind is Gate
        ||| self.kind is GnarlingFortification
        ||| self.kind is AdletStronghold
    }

    /// Whether walls stand on the tile.
    pub fn is_building(&self) -> (r: bool)
        ensures
            r == self.spec_is_building(),
    {
        matches!(
            self.kind,
            TileKind::Building | TileKind::Castle | TileKind::Wall(_) | TileKind::Tower(_)
                | TileKind::Keep(_) | TileKind::Gate | TileKind::GnarlingFortification
                | TileKind::AdletStronghold
        )
    }

    pub open spec fn spec_is_obstacle(self) -> bool {
        self.kind is Hazard || self.spec_is_building()
    }

    /// Whether no road and no plaza can be laid over the tile.
    pub fn is_obstacle(&self) -> (r: bool)
        ensures
            r == self.spec_is_obstacle(),
    {
        matches!(self.kind, TileKind::Hazard(_)) || self.is_building()
    }
}

/// Whether a tile at `(x, y)` is stored.
pub open spec fn on_grid(x: int, y: int) -> bool {
    GRID_MIN <= x < GRID_MAX && GRID_MIN <= y < GRID_MAX
}

spec fn key_of(x: int, y: int) -> u64 {
    ((x - GRID_MIN) * (GRID_MAX - GRID_MIN) + (y - GRID_MIN)) as u64
}

/// Tiles at all positions, of which those near the middle can be other than empty.
#[derive(Debug)]
pub struct Cells {
    map: HashMap<u64, Tile>,
}

impl Cells {
    /// The tile at `(x, y)`.
    pub closed spec fn at(self, x: int, y: int) -> Tile {
        if on_grid(x, y) && self.map@.contains_key(key_of(x, y)) {
            self.map@[key_of(x, y)]
        } else {
            empty_tile()
        }
    }

    fn new() -> (r: Cells)
        ensures
            forall|x: int, y: int| #[trigger] r.at(x, y) == empty_tile(),
    {
        broadcast use vstd::std_specs::hash::group_hash_axioms;

        Cells { map: HashMap::new() }
    }

    fn stores(x: i64, y: i64) -> (r: bool)
        ensures
            r == on_grid(x as int, y as int),
    {
        let (min, end): (i64, i64) = (GRID_MIN as i64, GRID_MAX as i64);
        min <= x && x < end && min <= y && y < end
    }

    fn key(x: i64, y: i64) -> (r: u64)
        requires
            on_grid(x as int, y as int),
        ensures
            r == key_of(x as int, y as int),
    {
        ((x + 256) * 528 + (y + 256)) as u64
    }

    fn get(&self, x: i64, y: i64) -> (r: Tile)
        ensures
            r == self.at(x as int, y as int),
    {
        broadcast use vstd::std_specs::hash::group_hash_axioms;

        if Self::stores(x, y) {
            match self.map.get(&Self::key(x, y)) {
                Some(tile) => *tile,
                None => Tile::empty(),
            }
        } else {
            Tile::empty()
        }
    }

    fn put(&mut self, p: Vec2, tile: Tile)
        ensures
            forall|x: int, y: int| #[trigger]
                final(self).at(x, y) == if x == p.x && y == p.y && on_grid(x, y) {
                    tile
                } else {
                    old(self).at(x, y)
                },
    {
        broadcast use vstd::std_specs::hash::group_hash_axioms;

        let x: i64 = p.x as i64;
        let y: i64 = p.y as i64;
        if Self::stores(x, y) {
            let k: u64 = Self::key(x, y);
            self.map.insert(k, tile);
        }
    }
}

/// The tiles of a site, and the box, with `max` included, around every position that was ever
/// set.
#[derive(Debug)]
pub struct TileGrid {
    pub bounds: Aabr,
    pub cells: Cells,
}

impl TileGrid {
    /// The tile at `(x, y)`.
    pub open spec fn at(self, x: int, y: int) -> Tile {
        self.cells.at(x, y)
    }

    /// The tile at a position.
    pub open spec fn at_pos(self, p: Vec2) -> Tile {
        self.at(p.x as int, p.y as int)
    }

    /// A grid on which everything is empty.
    pub fn new() -> (r: TileGrid)
        ensures
            forall|x: int, y: int| #[trigger] r.at(x, y) == empty_tile(),
            r.bounds.min.x == 0 && r.bounds.min.y == 0 && r.bounds.max.x == 0 && r.bounds.max.y
                == 0,
    {
        TileGrid {
            bounds: Aabr { min: Vec2 { x: 0, y: 0 }, max: Vec2 { x: 0, y: 0 } },
            cells: Cells::new(),
        }
    }

    /// The tile at `(x, y)`.
    pub fn get_xy(&self, x: i64, y: i64) -> (r: Tile)
        ensures
            r == self.at(x as int, y as int),
    {
        self.cells.get(x, y)
    }

    /// The tile at a position.
    pub fn get(&self, p: Vec2) -> (r: Tile)
        ensures
            r == self.at_pos(p),
    {
        self.get_xy(p.x as i64, p.y as i64)
    }

    /// Puts a tile at a position and grows the bounds to hold the position. A tile off the grid
    /// is not kept, though the bounds grow all the same.
    pub fn set(&mut self, p: Vec2, tile: Tile)
        ensures
            final(self).bounds.min.x == min_int(old(self).bounds.min.x as int, p.x as int),
            final(self).bounds.min.y == min_int(old(self).bounds.min.y as int, p.y as int),
            final(self).bounds.max.x == max_int(old(self).bounds.max.x as int, p.x as int),
            final(self).bounds.max.y == max_int(old(self).bounds.max.y as int, p.y as int),
            forall|x: int, y: int| #[trigger]
                final(self).at(x, y) == if x == p.x && y == p.y && on_grid(x, y) {
                    tile
                } else {
                    old(self).at(x, y)
                },
    {
        self.cells.put(p, tile);
        self.bounds = self.bounds.expanded_to_contain_point(p);
    }

    /// Changes what covers the tile at a position, and neither its plot nor the bounds.
    pub fn set_kind(&mut self, p: Vec2, kind: TileKind)
        ensures
            final(self).bounds == old(self).bounds,
            forall|x: int, y: int| #[trigger]
                final(self).at(x, y) == if x == p.x && y == p.y && on_grid(x, y) {
                    Tile { kind, ..old(self).at(x, y) }
                } else {
                    old(self).at(x, y)
                },
    {
        let mut tile = self.get(p);
        tile.kind = kind;
        self.cells.put(p, tile);
    }
}

} // verus!
