//! Plots: what stands on the tiles of a site.

use crate::geom::{max_int, min_int, Aabr, Vec2};
use vstd::prelude::*;

verus! {

/// The number of a plot within its site.
#[derive(Clone, Copy, PartialEq, Eq, Structural, Debug, Hash)]
pub struct Id {
    pub idx: usize,
}

/// What a plot is. Buildings hold their own description outside of the site; a road holds the
/// tiles that it runs through and a dungeon how hard it is.
#[derive(Debug)]
pub enum PlotKind {
    House,
    AirshipDock,
    Tavern,
    CoastalHouse,
    CoastalWorkshop,
    Workshop,
    Plaza,
    Dungeon { difficulty: u32 },
    Castle,
    SeaChapel,
    JungleRuin,
    Road(Vec<Vec2>),
    Gnarling,
    Adlet,
    Haniwa,
    GiantTree,
    CliffTower,
    Citadel,
    SavannahPit,
    SavannahHut,
    SavannahWorkshop,
    Bridge,
    PirateHideout,
    TerracottaPalace,
    TerracottaHouse,
    TerracottaYard,
    DesertCityMultiPlot,
    DesertCityTemple,
    DesertCityArena,
    RockCircle,
    TrollCave,
    Camp,
}

/// One plot of a site.
#[derive(Debug)]
pub struct Plot {
    pub kind: PlotKind,
    pub root_tile: Vec2,
    pub tiles: Vec<Vec2>,
    pub seed: u32,
}

/// The smallest box, with `max` included, around `root` and the points of `tiles`.
pub open spec fn bounds_of(root: Vec2, tiles: Seq<Vec2>) -> Aabr
    decreases tiles.len(),
{
    if tiles.len() == 0 {
        Aabr { min: root, max: root }
    } else {
        let b = bounds_of(root, tiles.drop_last());
        let p = tiles.last();
        Aabr {
            min: Vec2 {
                x: min_int(b.min.x as int, p.x as int) as i32,
                y: min_int(b.min.y as int, p.y as int) as i32,
            },
            max: Vec2 {
                x: max_int(b.max.x as int, p.x as int) as i32,
                y: max_int(b.max.y as int, p.y as int) as i32,
            },
        }
    }
}

impl Plot {
    /// The smallest box, with `max` included, around the root tile and all tiles of the plot.
    pub fn find_bounds(&self) -> (r: Aabr)
        ensures
            r == bounds_of(self.root_tile, self.tiles@),
    {
        let mut b = Aabr { min: self.root_tile, max: self.root_tile };
        let mut i: usize = 0;
        while i < self.tiles.len()
            invariant
                i <= self.tiles.len(),
                b == bounds_of(self.root_tile, self.tiles@.take(i as int)),
            decreases self.tiles.len() - i,
        {
            b = b.expanded_to_contain_point(self.tiles[i]);
            assert(self.tiles@.take(i + 1).drop_last() =~= self.tiles@.take(i as int));
            i = i + 1;
        }
        assert(self.tiles@.take(i as int) =~= self.tiles@);
        b
    }
}

/// Marker for an open square.
pub struct Plaza {}

} // verus!
