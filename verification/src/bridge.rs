//! Bridges: where one stands, and where the roads that lead onto it end.

use crate::coords::tile_of_block;
use crate::generate::is_site_started;
use crate::geom::{fits, half_toward_zero, max_int, min_int, Aabr, Dir, Vec2};
use crate::names::bridge_name;
use crate::plot::{Id, Plot, PlotKind};
use crate::rng::SiteRng;
use crate::roads::{cells_per_node, is_road_added, road_fits};
use crate::site::{center_tile, is_placed, lemma_other_plots_stay, Site};
use crate::tile::TileKind;
use vstd::prelude::*;

verus! {

/// The length of a chunk's side, in blocks.
pub const CHUNK_SIZE: i32 = 32;

/// The width of the roads onto a bridge.
pub const BRIDGE_ROAD_WIDTH: u16 = 2;

/// The coordinate of the block in the middle of a chunk.
pub open spec fn chunk_middle(chunk: int) -> int {
    chunk * CHUNK_SIZE + CHUNK_SIZE / 2
}

/// What is known of a bridge before it is worked out.
#[derive(Clone, Copy, PartialEq, Eq, Structural, Debug)]
pub struct BridgePlan {
    pub start_tile: Vec2,
    pub end_tile: Vec2,
    /// One along each axis that the bridge has to be widened in.
    pub orth: Vec2,
    /// The tiles between the ends, and one more on either side.
    pub start_aabr: Aabr,
}

/// A bridge as it was worked out: where it starts and ends, how wide it is in blocks, and which
/// way it leads.
#[derive(Clone, Copy, PartialEq, Eq, Structural, Debug)]
pub struct BridgeShape {
    pub start: Vec2,
    pub end: Vec2,
    pub width: i32,
    pub dir: Dir,
}

/// Where the roads onto a bridge start and end.
#[derive(Clone, Copy, PartialEq, Eq, Structural, Debug)]
pub struct Approaches {
    pub ahead_from: Vec2,
    pub ahead_to: Vec2,
    pub behind_from: Vec2,
    pub behind_to: Vec2,
}

/// What a bridge needs next.
#[derive(Clone, Copy, PartialEq, Eq, Structural, Debug)]
pub enum BridgePhase {
    /// The name of the town that it is named after.
    Name,
    /// Its shape.
    Shape,
    /// The road onto it that lies ahead.
    Ahead { start_tile: Vec2, aabr: Aabr, roads: Approaches },
    /// The road onto it that lies behind.
    Behind { start_tile: Vec2, aabr: Aabr, roads: Approaches },
    /// To be raised.
    Raise { start_tile: Vec2, aabr: Aabr },
    /// Nothing.
    Done,
}

/// A bridge in the making.
#[derive(Debug)]
pub struct Bridge {
    pub site: Site,
    pub plan: BridgePlan,
    pub phase: BridgePhase,
}

/// The area between two tiles, widened by `width` along the axes of `orth`.
pub open spec fn span(a: Vec2, b: Vec2, orth: Vec2, width: int) -> Aabr {
    Aabr {
        min: Vec2 {
            x: (min_int(a.x as int, b.x as int) - orth.x * width) as i32,
            y: (min_int(a.y as int, b.y as int) - orth.y * width) as i32,
        },
        max: Vec2 {
            x: (max_int(a.x as int, b.x as int) + 1 + orth.x * width) as i32,
            y: (max_int(a.y as int, b.y as int) + 1 + orth.y * width) as i32,
        },
    }
}

/// The axes that a bridge between two tiles has to be widened in: the one across, or both.
pub open spec fn across(a: Vec2, b: Vec2) -> Vec2 {
    Vec2 {
        x: if a.y != b.y {
            1
        } else {
            0
        },
        y: if a.x != b.x {
            1
        } else {
            0
        },
    }
}

/// How many tiles a bridge is widened by on either side, from its width in blocks.
pub open spec fn widening(width: int) -> int {
    if width + 3 >= 0 {
        (width + 3) / 6
    } else {
        -((-(width + 3)) / 6)
    }
}

fn span_area(a: Vec2, b: Vec2, orth: Vec2, width: i32) -> (r: Aabr)
    requires
        -0x4000_0000 <= a.x <= 0x4000_0000,
        -0x4000_0000 <= a.y <= 0x4000_0000,
        -0x4000_0000 <= b.x <= 0x4000_0000,
        -0x4000_0000 <= b.y <= 0x4000_0000,
        -0x2000_0000 <= width <= 0x2000_0000,
        0 <= orth.x <= 1,
        0 <= orth.y <= 1,
    ensures
        r == span(a, b, orth, width as int),
        -0x7000_0000 <= r.min.x <= 0x7000_0000,
        -0x7000_0000 <= r.min.y <= 0x7000_0000,
        -0x7000_0000 <= r.max.x <= 0x7000_0000,
        -0x7000_0000 <= r.max.y <= 0x7000_0000,
{
    let wx: i32 = if orth.x == 1 {
        width
    } else {
        0
    };
    let wy: i32 = if orth.y == 1 {
        width
    } else {
        0
    };
    let (x0, x1): (i32, i32) = if a.x <= b.x {
        (a.x, b.x)
    } else {
        (b.x, a.x)
    };
    let (y0, y1): (i32, i32) = if a.y <= b.y {
        (a.y, b.y)
    } else {
        (b.y, a.y)
    };
    assert(wx == orth.x * width) by (nonlinear_arith)
        requires
            0 <= orth.x <= 1,
            wx == (if orth.x == 1 { width as int } else { 0int }),
    ;
    assert(wy == orth.y * width) by (nonlinear_arith)
        requires
            0 <= orth.y <= 1,
            wy == (if orth.y == 1 { width as int } else { 0int }),
    ;
    Aabr {
        min: Vec2 { x: x0 - wx, y: y0 - wy },
        max: Vec2 { x: x1 + 1 + wx, y: y1 + 1 + wy },
    }
}

impl Site {
    /// Starts a bridge between the middles of two chunks, with the middle between these as its
    /// origin. Gives with it the generator that is its own, seeded from `rng`, which goes on in
    /// the same way whatever the bridge becomes.
    pub fn generate_bridge(rng: &mut SiteRng, start: Vec2, end: Vec2) -> (r: (Bridge, SiteRng))
        requires
            fits(chunk_middle(start.x as int)),
            fits(chunk_middle(start.y as int)),
            fits(chunk_middle(end.x as int)),
            fits(chunk_middle(end.y as int)),
        ensures
            r.0.wf(),
            r.0.phase is Name,
            is_site_started((r.0.site, r.1), *old(rng), r.0.site.origin),
            *final(rng) == old(rng).skip(32),
            r.0.site.origin.x == half_toward_zero(
                chunk_middle(start.x as int) + chunk_middle(end.x as int),
            ),
            r.0.site.origin.y == half_toward_zero(
                chunk_middle(start.y as int) + chunk_middle(end.y as int),
            ),
            r.0.plan.start_tile.x == tile_of_block(
                r.0.site.origin.x as int,
                chunk_middle(start.x as int),
            ),
            r.0.plan.start_tile.y == tile_of_block(
                r.0.site.origin.y as int,
                chunk_middle(start.y as int),
            ),
            r.0.plan.end_tile.x == tile_of_block(
                r.0.site.origin.x as int,
                chunk_middle(end.x as int),
            ),
            r.0.plan.end_tile.y == tile_of_block(
                r.0.site.origin.y as int,
                chunk_middle(end.y as int),
            ),
            r.0.plan.orth == across(r.0.plan.start_tile, r.0.plan.end_tile),
            r.0.plan.start_aabr == span(
                r.0.plan.start_tile,
                r.0.plan.end_tile,
                r.0.plan.orth,
                1,
            ),
            ({
                let a = r.0.plan.start_tile;
                let b = r.0.plan.end_tile;
                let area = r.0.plan.start_aabr;
                let wx = if a.y == b.y {
                    0int
                } else {
                    1int
                };
                let wy = if a.x == b.x {
                    0int
                } else {
                    1int
                };
                &&& r.0.plan.orth.x == wx && r.0.plan.orth.y == wy
                &&& a.x <= b.x ==> area.min.x == a.x - wx && area.max.x == b.x + 1 + wx
                &&& a.x >= b.x ==> area.min.x == b.x - wx && area.max.x == a.x + 1 + wx
                &&& a.y <= b.y ==> area.min.y == a.y - wy && area.max.y == b.y + 1 + wy
                &&& a.y >= b.y ==> area.min.y == b.y - wy && area.max.y == a.y + 1 + wy
            }),
    {
        let start = Vec2 {
            x: (start.x as i64 * 32 + 16) as i32,
            y: (start.y as i64 * 32 + 16) as i32,
        };
        let end = Vec2 { x: (end.x as i64 * 32 + 16) as i32, y: (end.y as i64 * 32 + 16) as i32 };
        let origin = Vec2 {
            x: ((start.x as i64 + end.x as i64) / 2) as i32,
            y: ((start.y as i64 + end.y as i64) / 2) as i32,
        };
        let (site, own) = Site::start_site(rng, origin);
        let start_tile = site.wpos_tile_pos(start);
        let end_tile = site.wpos_tile_pos(end);
        let orth = Vec2 {
            x: if start_tile.y != end_tile.y {
                1
            } else {
                0
            },
            y: if start_tile.x != end_tile.x {
                1
            } else {
                0
            },
        };
        let start_aabr = span_area(start_tile, end_tile, orth, 1);
        assert(orth.x * 1 == orth.x && orth.y * 1 == orth.y);
        let plan = BridgePlan { start_tile, end_tile, orth, start_aabr };
        (Bridge { site, plan, phase: BridgePhase::Name }, own)
    }

    /// Whether a bridge starts on `start_tile` and covers `aabr`: the area between its ends,
    /// widened by its width.
    pub open spec fn is_bridge_area(
        self,
        plan: BridgePlan,
        shape: BridgeShape,
        start_tile: Vec2,
        aabr: Aabr,
    ) -> bool {
        let end = Vec2 {
            x: tile_of_block(self.origin.x as int, shape.end.x as int) as i32,
            y: tile_of_block(self.origin.y as int, shape.end.y as int) as i32,
        };
        &&& start_tile.x == tile_of_block(self.origin.x as int, shape.start.x as int)
        &&& start_tile.y == tile_of_block(self.origin.y as int, shape.start.y as int)
        &&& aabr == span(start_tile, end, plan.orth, widening(shape.width as int))
    }

    /// The tile that a bridge starts on, and the area that it covers.
    pub fn bridge_area(&self, plan: BridgePlan, shape: BridgeShape) -> (r: (Vec2, Aabr))
        requires
            0 <= plan.orth.x <= 1,
            0 <= plan.orth.y <= 1,
        ensures
            self.is_bridge_area(plan, shape, r.0, r.1),
            -0x7000_0000 <= r.1.min.x <= 0x7000_0000,
            -0x7000_0000 <= r.1.min.y <= 0x7000_0000,
            -0x7000_0000 <= r.1.max.x <= 0x7000_0000,
            -0x7000_0000 <= r.1.max.y <= 0x7000_0000,
    {
        let start_tile = self.wpos_tile_pos(shape.start);
        let end_tile = self.wpos_tile_pos(shape.end);
        let width: i32 = ((shape.width as i64 + 3) / 6) as i32;
        let aabr = span_area(start_tile, end_tile, plan.orth, width);
        (start_tile, aabr)
    }

    /// Adds a bridge over the area that it covers.
    pub fn raise_bridge(&mut self, rng: &mut SiteRng, start_tile: Vec2, aabr: Aabr) -> (id: Id)
        ensures
            is_placed(
                *old(self),
                *final(self),
                id,
                PlotKind::Bridge,
                start_tile,
                aabr,
                old(rng).word(),
                TileKind::Bridge,
                None,
            ),
            final(self).plazas == old(self).plazas,
            final(self).roads == old(self).roads,
            *final(rng) == old(rng).skip(1),
            old(self).wf() ==> final(self).wf(),
    {
        self.place_at(rng, PlotKind::Bridge, start_tile, aabr, TileKind::Bridge, None)
    }
}

impl BridgePlan {
    /// Whether the roads onto a bridge lead on either side from just beyond the bridge to the edge
    /// of the area that was planned for it.
    pub open spec fn are_approaches(self, aabr: Aabr, dir: Dir, r: Approaches) -> bool {
        let middle = center_tile(aabr);
        let ahead = dir.side_point(aabr, middle);
        let behind = dir.spec_opposite().side_point(aabr, middle);
        &&& r.ahead_from.x == ahead.x + dir.step().x
        &&& r.ahead_from.y == ahead.y + dir.step().y
        &&& r.ahead_to == dir.side_point(self.start_aabr, middle)
        &&& r.behind_from.x == behind.x - dir.step().x
        &&& r.behind_from.y == behind.y - dir.step().y
        &&& r.behind_to == dir.spec_opposite().side_point(self.start_aabr, middle)
    }

    /// Where the roads onto a bridge lead: on either side from just beyond the bridge to the edge
    /// of the area that was planned for it.
    pub fn approaches(self, aabr: Aabr, dir: Dir) -> (r: Approaches)
        requires
            dir.side_point(aabr, center_tile(aabr)).offset_fits(
                dir.step().x as int,
                dir.step().y as int,
            ),
            dir.spec_opposite().side_point(aabr, center_tile(aabr)).offset_fits(
                -dir.step().x as int,
                -dir.step().y as int,
            ),
        ensures
            self.are_approaches(aabr, dir, r),
    {
        let middle = aabr.center();
        let back = dir.opposite();
        let step = dir.to_vec2();
        Approaches {
            ahead_from: dir.select_aabr_with(aabr, middle).offset(step.x, step.y),
            ahead_to: dir.select_aabr_with(self.start_aabr, middle),
            behind_from: back.select_aabr_with(aabr, middle).offset(-step.x, -step.y),
            behind_to: back.select_aabr_with(self.start_aabr, middle),
        }
    }
}

/// Whether all of some plots are roads, and there are at most `most`.
pub open spec fn are_roads(plots: Seq<Plot>, most: int) -> bool {
    plots.len() <= most && forall|i: int|
        0 <= i < plots.len() ==> (#[trigger] plots[i]).kind is Road
}

impl Bridge {
    /// What holds of a bridge at all times: before it is raised there are at most the roads onto
    /// it, and after that it is the last plot.
    pub open spec fn wf(self) -> bool {
        let plots = self.site.plots@;
        &&& self.site.wf()
        &&& 0 <= self.plan.orth.x <= 1
        &&& 0 <= self.plan.orth.y <= 1
        &&& match self.phase {
            BridgePhase::Name | BridgePhase::Shape | BridgePhase::Ahead { .. } => plots.len() == 0,
            BridgePhase::Behind { .. } => are_roads(plots, 1),
            BridgePhase::Raise { .. } => are_roads(plots, 2),
            BridgePhase::Done => {
                &&& plots.len() > 0
                &&& plots.last().kind is Bridge
                &&& are_roads(plots.drop_last(), 2)
            },
        }
    }

    /// Takes the name of the town that the bridge is named after.
    pub fn take_name(&mut self, generated: &str)
        requires
            old(self).wf(),
            old(self).phase is Name,
        ensures
            final(self).wf(),
            final(self).phase is Shape,
            final(self).plan == old(self).plan,
            final(self).site == (Site { name: final(self).site.name, ..old(self).site }),
            final(self).site.name@ == "Bridge of "@ + generated@,
    {
        self.site.name = bridge_name(generated);
        self.phase = BridgePhase::Shape;
    }

    /// Takes the shape.
    pub fn take_shape(&mut self, shape: BridgeShape)
        requires
            old(self).wf(),
            old(self).phase is Shape,
        ensures
            final(self).wf(),
            final(self).plan == old(self).plan,
            final(self).site == old(self).site,
            final(self).phase matches BridgePhase::Ahead { start_tile, aabr, roads }
                && old(self).site.is_bridge_area(old(self).plan, shape, start_tile, aabr) && old(
                self,
            ).plan.are_approaches(aabr, shape.dir, roads),
    {
        let (start_tile, aabr) = self.site.bridge_area(self.plan, shape);
        let roads = self.plan.approaches(aabr, shape.dir);
        self.phase = BridgePhase::Ahead { start_tile, aabr, roads };
    }

    /// Where the road that is needed next leads from and to.
    pub open spec fn spec_road_due(self) -> Option<(Vec2, Vec2)> {
        match self.phase {
            BridgePhase::Ahead { roads, .. } => Some((roads.ahead_from, roads.ahead_to)),
            BridgePhase::Behind { roads, .. } => Some((roads.behind_from, roads.behind_to)),
            _ => None,
        }
    }

    pub fn road_due(&self) -> (r: Option<(Vec2, Vec2)>)
        ensures
            r == self.spec_road_due(),
    {
        match self.phase {
            BridgePhase::Ahead { roads, .. } => Some((roads.ahead_from, roads.ahead_to)),
            BridgePhase::Behind { roads, .. } => Some((roads.behind_from, roads.behind_to)),
            _ => None,
        }
    }

    /// What is needed after the road that was needed.
    pub open spec fn after_road(self) -> BridgePhase {
        match self.phase {
            BridgePhase::Ahead { start_tile, aabr, roads } => BridgePhase::Behind {
                start_tile,
                aabr,
                roads,
            },
            BridgePhase::Behind { start_tile, aabr, .. } => BridgePhase::Raise { start_tile, aabr },
            phase => phase,
        }
    }

    /// Makes the road that is needed along a path that was found, if any. `alts` gives the altitude
    /// of each tile around the path, in the order of [`road_cells`](crate::roads::road_cells).
    pub fn take_road(
        &mut self,
        rng: &mut SiteRng,
        path: Option<Vec<Vec2>>,
        alts: &Vec<i32>,
    ) -> (r: Option<Id>)
        requires
            old(self).wf(),
            old(self).spec_road_due() is Some,
            path matches Some(nodes) ==> road_fits(nodes@, BRIDGE_ROAD_WIDTH) && alts@.len()
                == nodes@.len() * cells_per_node(BRIDGE_ROAD_WIDTH),
        ensures
            final(self).wf(),
            final(self).plan == old(self).plan,
            final(self).phase == old(self).after_road(),
            r is Some <==> path is Some,
            path is None ==> final(self).site == old(self).site && *final(rng) == *old(rng),
            path matches Some(nodes) ==> {
                &&& is_road_added(
                    old(self).site,
                    final(self).site,
                    r->0,
                    (old(self).spec_road_due()->0).0,
                    nodes@,
                    BRIDGE_ROAD_WIDTH,
                    alts@,
                    old(rng).word(),
                )
                &&& *final(rng) == old(rng).skip(1)
            },
    {
        let start = match self.road_due() {
            Some((from, _)) => from,
            None => Vec2::zero(),
        };
        let r = self.site.create_road(rng, start, path, BRIDGE_ROAD_WIDTH, alts);
        self.phase = match self.phase {
            BridgePhase::Ahead { start_tile, aabr, roads } => BridgePhase::Behind {
                start_tile,
                aabr,
                roads,
            },
            BridgePhase::Behind { start_tile, aabr, .. } => BridgePhase::Raise { start_tile, aabr },
            phase => phase,
        };
        proof {
            if r is Some {
                lemma_other_plots_stay(old(self).site, self.site, r->0);
            }
        }
        r
    }

    /// Raises the bridge over the area that it covers.
    pub fn raise(&mut self, rng: &mut SiteRng) -> (id: Id)
        requires
            old(self).wf(),
            old(self).phase is Raise,
        ensures
            final(self).wf(),
            final(self).plan == old(self).plan,
            final(self).phase is Done,
            ({
                let start_tile = old(self).phase->Raise_start_tile;
                let aabr = old(self).phase->Raise_aabr;
                is_placed(
                    old(self).site,
                    final(self).site,
                    id,
                    PlotKind::Bridge,
                    start_tile,
                    aabr,
                    old(rng).word(),
                    TileKind::Bridge,
                    None,
                )
            }),
            final(self).site.plazas == old(self).site.plazas,
            final(self).site.roads == old(self).site.roads,
            *final(rng) == old(rng).skip(1),
    {
        let (start_tile, aabr): (Vec2, Aabr) = match self.phase {
            BridgePhase::Raise { start_tile, aabr } => (start_tile, aabr),
            _ => (Vec2::zero(), Aabr { min: Vec2::zero(), max: Vec2::zero() }),
        };
        let id = self.site.raise_bridge(rng, start_tile, aabr);
        self.phase = BridgePhase::Done;
        assert(self.site.plots@.drop_last() =~= old(self).site.plots@) by {
            lemma_other_plots_stay(old(self).site, self.site, id);
        }
        id
    }

    /// The finished bridge.
    pub fn finish(self) -> (r: Site)
        requires
            self.phase is Done,
        ensures
            r == self.site,
    {
        self.site
    }
}

} // verus!
