//! A site: tiles, the plots that they belong to, and where both lie in the world.

use crate::geom::{max_int, min_int, Aabr, Vec2};
use crate::plot::{Id, Plot, PlotKind};
use crate::rng::SiteRng;
use crate::tile::{on_grid, empty_tile, Tile, TileGrid, TileKind};
use vstd::arithmetic::div_mod::lemma_fundamental_div_mod_converse;
use vstd::prelude::*;

verus! {

/// A settlement or a landmark.
#[derive(Debug)]
pub struct Site {
    /// The world position of the corner of tile `(0, 0)`.
    pub origin: Vec2,
    pub name: String,
    pub tiles: TileGrid,
    pub plots: Vec<Plot>,
    pub plazas: Vec<Id>,
    pub roads: Vec<Id>,
}

/// The number of tiles of an area: none if it is void.
pub open spec fn tile_count(aabr: Aabr) -> nat {
    if aabr.is_void() {
        0
    } else {
        (aabr.width() * aabr.height()) as nat
    }
}

/// The tiles of an area, row by row.
pub open spec fn area_tiles(aabr: Aabr) -> Seq<Vec2> {
    Seq::new(
        tile_count(aabr),
        |k: int|
            Vec2 {
                x: (aabr.min.x + k % aabr.width()) as i32,
                y: (aabr.min.y + k / aabr.width()) as i32,
            },
    )
}

/// The midpoint of an area, as a tile.
pub open spec fn center_tile(aabr: Aabr) -> Vec2 {
    Vec2 { x: aabr.center_x() as i32, y: aabr.center_y() as i32 }
}

proof fn lemma_row_and_column(w: int, x: int, y: int)
    requires
        0 <= x < w,
    ensures
        (y * w + x) % w == x,
        (y * w + x) / w == y,
{
    lemma_fundamental_div_mod_converse(y * w + x, w, y, x);
}

/// The tiles of an area, row by row.
pub fn aabr_tiles(aabr: Aabr) -> (r: Vec<Vec2>)
    ensures
        r@ == area_tiles(aabr),
{
    let mut tiles: Vec<Vec2> = Vec::new();
    if aabr.min.x >= aabr.max.x {
        assert(tiles@ =~= area_tiles(aabr));
        return tiles;
    }
    let ghost w = aabr.width();
    let mut y: i32 = aabr.min.y;
    while y < aabr.max.y
        invariant
            w == aabr.width(),
            w > 0,
            aabr.min.y <= y,
            aabr.min.y < aabr.max.y ==> y <= aabr.max.y,
            aabr.min.y >= aabr.max.y ==> y == aabr.min.y,
            tiles@.len() == (y - aabr.min.y) * w,
            forall|k: int|
                0 <= k < tiles@.len() ==> (#[trigger] tiles@[k]).x == aabr.min.x + k % w
                    && tiles@[k].y == aabr.min.y + k / w,
        decreases aabr.max.y - y,
    {
        let mut x: i32 = aabr.min.x;
        while x < aabr.max.x
            invariant
                w == aabr.width(),
                w > 0,
                aabr.min.y <= y < aabr.max.y,
                aabr.min.x <= x <= aabr.max.x,
                tiles@.len() == (y - aabr.min.y) * w + (x - aabr.min.x),
                forall|k: int|
                    0 <= k < tiles@.len() ==> (#[trigger] tiles@[k]).x == aabr.min.x + k % w
                        && tiles@[k].y == aabr.min.y + k / w,
            decreases aabr.max.x - x,
        {
            proof {
                lemma_row_and_column(w, x - aabr.min.x, y - aabr.min.y);
            }
            tiles.push(Vec2 { x, y });
            x = x + 1;
        }
        assert((y - aabr.min.y) * w + w == (y + 1 - aabr.min.y) * w) by (nonlinear_arith);
        y = y + 1;
    }
    proof {
        if aabr.min.y < aabr.max.y {
            assert((y - aabr.min.y) * w == aabr.width() * aabr.height() && aabr.width()
                * aabr.height() >= 0) by (nonlinear_arith)
                requires
                    w == aabr.width(),
                    w > 0,
                    y == aabr.max.y,
                    aabr.height() == aabr.max.y - aabr.min.y,
                    aabr.height() > 0,
            ;
        } else {
            assert((y - aabr.min.y) * w == 0) by (nonlinear_arith)
                requires
                    y == aabr.min.y,
            ;
        }
        assert(tiles@.len() == tile_count(aabr));
        assert forall|k: int| 0 <= k < tiles@.len() implies tiles@[k] == #[trigger] area_tiles(
            aabr,
        )[k] by {
            assert(tiles@[k].x == aabr.min.x + k % w && tiles@[k].y == aabr.min.y + k / w);
        }
        assert(tiles@ =~= area_tiles(aabr));
    }
    tiles
}

/// Whether a tile that names a plot names one of `plots`, and, if it is a stretch of a road,
/// names nodes of that road.
pub open spec fn tile_ok(plots: Seq<Plot>, tile: Tile) -> bool {
    tile.plot matches Some(id) ==> {
        &&& id.idx < plots.len()
        &&& tile.kind matches TileKind::Road { a, b, .. } ==> (plots[id.idx as int].kind matches PlotKind::Road(
            path,
        ) ==> a < path@.len() && b < path@.len())
    }
}

impl Site {
    /// What holds of a site at all times: plazas and roads are plots of their kind, tiles name
    /// plots that exist, road tiles name nodes of their road, and every tile of a plot lies
    /// within the bounds.
    pub open spec fn wf(self) -> bool {
        &&& forall|i: int|
            0 <= i < self.plazas@.len() ==> (#[trigger] self.plazas@[i]).idx < self.plots@.len()
                && self.plots@[self.plazas@[i].idx as int].kind is Plaza
        &&& forall|i: int|
            0 <= i < self.roads@.len() ==> (#[trigger] self.roads@[i]).idx < self.plots@.len()
                && self.plots@[self.roads@[i].idx as int].kind is Road
        &&& forall|x: int, y: int|
            tile_ok(self.plots@, #[trigger] self.tiles.at(x, y)) && (self.tiles.at(x, y).plot is Some
                ==> self.tiles.bounds.encloses(x, y))
    }

    /// Whether two sites differ in their tiles at most.
    pub open spec fn same_but_tiles(self, other: Site) -> bool {
        &&& self.origin == other.origin
        &&& self.name == other.name
        &&& self.plots == other.plots
        &&& self.plazas == other.plazas
        &&& self.roads == other.roads
    }

    /// Whether this site is `other` with the plot `id` added after all plots, but for tiles.
    pub open spec fn has_new_plot(self, other: Site, id: Id) -> bool {
        &&& self.origin == other.origin
        &&& self.name == other.name
        &&& id.idx == other.plots@.len()
        &&& self.plots@.len() == other.plots@.len() + 1
        &&& self.plots@.take(other.plots@.len() as int) == other.plots@
    }

    /// The plot of a number.
    pub open spec fn plot_of(self, id: Id) -> Plot {
        self.plots@[id.idx as int]
    }

    /// An empty site.
    pub fn new(origin: Vec2, name: String) -> (r: Site)
        ensures
            r.origin == origin,
            r.name == name,
            r.blank(),
            r.wf(),
    {
        Site {
            origin,
            name,
            tiles: TileGrid::new(),
            plots: Vec::new(),
            plazas: Vec::new(),
            roads: Vec::new(),
        }
    }

    /// Whether nothing has been laid out yet.
    pub open spec fn blank(self) -> bool {
        &&& self.plots@.len() == 0
        &&& self.plazas@.len() == 0
        &&& self.roads@.len() == 0
        &&& self.tiles.bounds == (Aabr { min: Vec2 { x: 0, y: 0 }, max: Vec2 { x: 0, y: 0 } })
        &&& forall|x: int, y: int| #[trigger] self.tiles.at(x, y) == empty_tile()
    }

    pub fn name(&self) -> (r: &str)
        ensures
            r@ == self.name@,
    {
        self.name.as_str()
    }

    pub fn plot(&self, id: Id) -> (r: &Plot)
        requires
            id.idx < self.plots@.len(),
        ensures
            *r == self.plot_of(id),
    {
        &self.plots[id.idx]
    }

    /// All plots, in the order of their numbers.
    pub fn plots(&self) -> (r: &Vec<Plot>)
        ensures
            *r == self.plots,
    {
        &self.plots
    }

    /// The plots that are plazas, in the order in which they were made.
    pub fn plazas(&self) -> (r: &Vec<Id>)
        ensures
            *r == self.plazas,
    {
        &self.plazas
    }

    /// Adds a plot.
    pub fn create_plot(&mut self, plot: Plot) -> (id: Id)
        ensures
            final(self).has_new_plot(*old(self), id),
            final(self).plot_of(id) == plot,
            final(self).tiles == old(self).tiles,
            final(self).plazas == old(self).plazas,
            final(self).roads == old(self).roads,
            old(self).wf() ==> final(self).wf(),
    {
        let id = Id { idx: self.plots.len() };
        self.plots.push(plot);
        proof {
            assert(self.plots@.take(old(self).plots@.len() as int) =~= old(self).plots@);
            if old(self).wf() {
                lemma_wf_keeps_with_more_plots(*old(self), *self);
            }
        }
        id
    }

    /// Covers every tile of an area with the same tile.
    pub fn blit_aabr(&mut self, aabr: Aabr, tile: Tile)
        ensures
            final(self).same_but_tiles(*old(self)),
            is_blit(old(self).tiles, final(self).tiles, aabr, tile),
            old(self).wf() && tile_ok(old(self).plots@, tile) ==> final(self).wf(),
    {
        if aabr.min.x >= aabr.max.x || aabr.min.y >= aabr.max.y {
            return ;
        }
        let ghost before = self.tiles;
        let mut y: i32 = aabr.min.y;
        while y < aabr.max.y
            invariant
                before == old(self).tiles,
                self.same_but_tiles(*old(self)),
                !aabr.is_void(),
                aabr.min.y <= y <= aabr.max.y,
                forall|u: int, v: int| #[trigger]
                    self.tiles.at(u, v) == if aabr.holds(u, v) && v < y && on_grid(u, v) {
                        tile
                    } else {
                        before.at(u, v)
                    },
                y == aabr.min.y ==> self.tiles.bounds == before.bounds,
                y > aabr.min.y ==> is_bounds_with(
                    before.bounds,
                    self.tiles.bounds,
                    aabr.min.x as int,
                    aabr.min.y as int,
                    aabr.max.x - 1,
                    y - 1,
                ),
            decreases aabr.max.y - y,
        {
            let mut x: i32 = aabr.min.x;
            while x < aabr.max.x
                invariant
                    before == old(self).tiles,
                    self.same_but_tiles(*old(self)),
                    !aabr.is_void(),
                    aabr.min.y <= y < aabr.max.y,
                    aabr.min.x <= x <= aabr.max.x,
                    forall|u: int, v: int| #[trigger]
                        self.tiles.at(u, v) == if aabr.holds(u, v) && (v < y || v == y && u < x)
                            && on_grid(u, v) {
                            tile
                        } else {
                            before.at(u, v)
                        },
                    x == aabr.min.x && y == aabr.min.y ==> self.tiles.bounds == before.bounds,
                    x == aabr.min.x && y > aabr.min.y ==> is_bounds_with(
                        before.bounds,
                        self.tiles.bounds,
                        aabr.min.x as int,
                        aabr.min.y as int,
                        aabr.max.x - 1,
                        y - 1,
                    ),
                    x > aabr.min.x ==> is_bounds_with(
                        before.bounds,
                        self.tiles.bounds,
                        aabr.min.x as int,
                        aabr.min.y as int,
                        if y > aabr.min.y {
                            aabr.max.x - 1
                        } else {
                            x - 1
                        },
                        y as int,
                    ),
                decreases aabr.max.x - x,
            {
                self.tiles.set(Vec2 { x, y }, tile);
                x = x + 1;
            }
            y = y + 1;
        }
    }

    /// Adds a plot over an area, with a seed of its own, and covers the area with its tiles.
    pub fn place_at(
        &mut self,
        rng: &mut SiteRng,
        kind: PlotKind,
        root_tile: Vec2,
        aabr: Aabr,
        cover: TileKind,
        hard_alt: Option<i32>,
    ) -> (id: Id)
        ensures
            is_placed(
                *old(self),
                *final(self),
                id,
                kind,
                root_tile,
                aabr,
                old(rng).word(),
                cover,
                hard_alt,
            ),
            final(self).plazas == old(self).plazas,
            final(self).roads == old(self).roads,
            *final(rng) == old(rng).skip(1),
            old(self).wf() && !(cover is Road && kind is Road) ==> final(self).wf(),
    {
        let tiles = aabr_tiles(aabr);
        let seed = rng.next_u32();
        let id = self.create_plot(Plot { kind, root_tile, tiles, seed });
        self.blit_aabr(aabr, Tile { kind: cover, plot: Some(id), hard_alt });
        id
    }

    /// Adds a plot over an area, rooted in its middle, and covers the area with its tiles.
    pub fn place(
        &mut self,
        rng: &mut SiteRng,
        kind: PlotKind,
        aabr: Aabr,
        cover: TileKind,
        hard_alt: Option<i32>,
    ) -> (id: Id)
        ensures
            is_placed(
                *old(self),
                *final(self),
                id,
                kind,
                center_tile(aabr),
                aabr,
                old(rng).word(),
                cover,
                hard_alt,
            ),
            final(self).plazas == old(self).plazas,
            final(self).roads == old(self).roads,
            *final(rng) == old(rng).skip(1),
            old(self).wf() && !(cover is Road && kind is Road) ==> final(self).wf(),
    {
        self.place_at(rng, kind, aabr.center(), aabr, cover, hard_alt)
    }
}

impl Default for Site {
    /// An empty, nameless site at the origin of the world.
    fn default() -> (r: Site)
        ensures
            r.origin == (Vec2 { x: 0, y: 0 }),
            r.name@ == Seq::<char>::empty(),
            r.blank(),
            r.wf(),
    {
        Site::new(Vec2::zero(), String::new())
    }
}

/// Whether `after` is the box `before` grown to hold the box from `(x0, y0)` to `(x1, y1)`.
pub(crate) open spec fn is_bounds_with(
    before: Aabr,
    after: Aabr,
    x0: int,
    y0: int,
    x1: int,
    y1: int,
) -> bool {
    &&& after.min.x == min_int(before.min.x as int, x0)
    &&& after.min.y == min_int(before.min.y as int, y0)
    &&& after.max.x == max_int(before.max.x as int, x1)
    &&& after.max.y == max_int(before.max.y as int, y1)
}

/// The bounds of a grid once every tile of an area has been set.
pub open spec fn grown(bounds: Aabr, area: Aabr) -> Aabr {
    if area.is_void() {
        bounds
    } else {
        Aabr {
            min: Vec2 {
                x: min_int(bounds.min.x as int, area.min.x as int) as i32,
                y: min_int(bounds.min.y as int, area.min.y as int) as i32,
            },
            max: Vec2 {
                x: max_int(bounds.max.x as int, area.max.x - 1) as i32,
                y: max_int(bounds.max.y as int, area.max.y - 1) as i32,
            },
        }
    }
}

/// Whether `after` is `before` with `tile` at every position of an area.
pub open spec fn is_blit(before: TileGrid, after: TileGrid, aabr: Aabr, tile: Tile) -> bool {
    &&& forall|x: int, y: int| #[trigger]
        after.at(x, y) == if aabr.holds(x, y) && on_grid(x, y) {
            tile
        } else {
            before.at(x, y)
        }
    &&& after.bounds == grown(before.bounds, aabr)
}

/// Whether `after` is `before` with one more plot, numbered `id`, of the given tiles; which tiles
/// of the grid changed is left open.
pub open spec fn is_plot_added(
    before: Site,
    after: Site,
    id: Id,
    kind: PlotKind,
    root_tile: Vec2,
    tiles: Seq<Vec2>,
    seed: u32,
) -> bool {
    &&& after.has_new_plot(before, id)
    &&& after.plot_of(id).kind == kind
    &&& after.plot_of(id).root_tile == root_tile
    &&& after.plot_of(id).tiles@ == tiles
    &&& after.plot_of(id).seed == seed
}

/// Whether `after` is `before` with one more plot, numbered `id`, which spreads over an area and
/// covers it.
pub open spec fn is_placed(
    before: Site,
    after: Site,
    id: Id,
    kind: PlotKind,
    root_tile: Vec2,
    aabr: Aabr,
    seed: u32,
    cover: TileKind,
    hard_alt: Option<i32>,
) -> bool {
    &&& is_plot_added(before, after, id, kind, root_tile, area_tiles(aabr), seed)
    &&& is_blit(before.tiles, after.tiles, aabr, Tile { kind: cover, plot: Some(id), hard_alt })
}

/// A new plot leaves the others as they were.
pub proof fn lemma_other_plots_stay(before: Site, after: Site, id: Id)
    requires
        after.has_new_plot(before, id),
    ensures
        forall|i: int|
            0 <= i < before.plots@.len() ==> (#[trigger] after.plots@[i]) == before.plots@[i],
{
    assert forall|i: int| 0 <= i < before.plots@.len() implies (#[trigger] after.plots@[i])
        == before.plots@[i] by {
        assert(after.plots@.take(before.plots@.len() as int)[i] == before.plots@[i]);
    }
}

/// A site keeps its invariant when plots are added after the others and nothing else changes.
pub proof fn lemma_wf_keeps_with_more_plots(before: Site, after: Site)
    requires
        before.wf(),
        before.plots@.len() <= after.plots@.len(),
        after.plots@.take(before.plots@.len() as int) == before.plots@,
        after.plazas == before.plazas,
        after.roads == before.roads,
        after.tiles == before.tiles,
    ensures
        after.wf(),
{
    assert forall|i: int| 0 <= i < before.plots@.len() implies after.plots@[i]
        == #[trigger] before.plots@[i] by {
        assert(after.plots@.take(before.plots@.len() as int)[i] == before.plots@[i]);
    }
    assert forall|x: int, y: int|
        tile_ok(after.plots@, #[trigger] after.tiles.at(x, y)) && (after.tiles.at(x, y).plot is Some
            ==> after.tiles.bounds.encloses(x, y)) by {
        assert(tile_ok(before.plots@, before.tiles.at(x, y)));
    }
}

} // verus!
