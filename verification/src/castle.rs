//! The layout of a castle: a ring of walls with towers and a gate, a courtyard and a keep.

use crate::geom::{min_int, Aabr, Dir, Vec2};
use crate::plot::{Id, Plot, PlotKind};
use crate::rng::SiteRng;
use crate::site::{aabr_tiles, area_tiles, center_tile, grown, is_plot_added, Site};
use crate::tile::{on_grid, KeepKind, RoofKind, Tile, TileKind};
use vstd::prelude::*;

verus! {

/// Whether an area has room for a castle whose gate is `offset` tiles from the corner.
pub open spec fn castle_fits(aabr: Aabr, offset: int) -> bool {
    5 <= offset < min_int(aabr.width(), aabr.height()) - 4
}

/// What covers the ring of a castle, with `y == aabr.min.y` as its front.
pub open spec fn ring_kind(aabr: Aabr, offset: int, x: int, y: int) -> TileKind {
    let at_side = x == aabr.min.x || x == aabr.max.x - 1;
    let along = x - aabr.min.x;
    if at_side && (y == aabr.min.y || y == aabr.max.y - 1) {
        TileKind::Tower(RoofKind::Parapet)
    } else if y == aabr.min.y && (along == offset - 2 || along == offset + 2) {
        TileKind::Tower(RoofKind::Parapet)
    } else if y == aabr.min.y && offset - 1 <= along <= offset + 1 {
        TileKind::Gate
    } else if at_side {
        TileKind::Wall(Dir::Y)
    } else {
        TileKind::Wall(Dir::X)
    }
}

/// What covers the tile that is `(dx, dy)` from the middle of a castle, within its ring.
pub open spec fn court_kind(dx: int, dy: int) -> TileKind {
    if -2 <= dx < 2 && -2 <= dy < 2 {
        TileKind::Keep(KeepKind::Middle)
    } else if (dx == 2 || dx == -3) && (dy == 2 || dy == -3) {
        TileKind::Tower(RoofKind::Pyramid)
    } else if -3 <= dx < 3 && -3 <= dy < 3 {
        TileKind::Wall(Dir::Y)
    } else {
        TileKind::Road { a: 0, b: 0, w: 0 }
    }
}

/// Whether `(x, y)` lies in an area but not on its rim.
pub open spec fn in_court(aabr: Aabr, x: int, y: int) -> bool {
    aabr.min.x < x < aabr.max.x - 1 && aabr.min.y < y < aabr.max.y - 1
}

/// What covers a tile of a castle.
pub open spec fn castle_kind(aabr: Aabr, offset: int, x: int, y: int) -> TileKind {
    if in_court(aabr, x, y) {
        court_kind(x - aabr.center_x(), y - aabr.center_y())
    } else {
        ring_kind(aabr, offset, x, y)
    }
}

/// The area of a castle's gate.
pub fn castle_gate(aabr: Aabr, offset: i32) -> (r: Aabr)
    requires
        castle_fits(aabr, offset as int),
    ensures
        r.min.x == aabr.min.x + offset - 1,
        r.min.y == aabr.min.y,
        r.max.x == aabr.min.x + offset + 2,
        r.max.y == aabr.min.y + 1,
        forall|x: int, y: int|
            r.holds(x, y) <==> aabr.holds(x, y) && #[trigger] castle_kind(
                aabr,
                offset as int,
                x,
                y,
            ) is Gate,
{
    Aabr {
        min: Vec2 { x: aabr.min.x + offset - 1, y: aabr.min.y },
        max: Vec2 { x: aabr.min.x + offset + 2, y: aabr.min.y + 1 },
    }
}

impl Site {
    /// The tile of kind `kind` of a plot.
    fn tile_of(kind: TileKind, id: Id, alt: i32) -> (r: Tile)
        ensures
            r == (Tile { kind, plot: Some(id), hard_alt: Some(alt) }),
    {
        Tile { kind, plot: Some(id), hard_alt: Some(alt) }
    }

    fn raise_ring(&mut self, id: Id, aabr: Aabr, offset: i32, alt: i32)
        requires
            castle_fits(aabr, offset as int),
        ensures
            final(self).same_but_tiles(*old(self)),
            final(self).tiles.bounds == grown(old(self).tiles.bounds, aabr),
            forall|x: int, y: int| #[trigger]
                final(self).tiles.at(x, y) == if aabr.holds(x, y) && !in_court(aabr, x, y)
                    && on_grid(x, y) {
                    Tile {
                        kind: ring_kind(aabr, offset as int, x, y),
                        plot: Some(id),
                        hard_alt: Some(alt),
                    }
                } else {
                    old(self).tiles.at(x, y)
                },
    {
        let wall_east = Self::tile_of(TileKind::Wall(Dir::X), id, alt);
        let wall_north = Self::tile_of(TileKind::Wall(Dir::Y), id, alt);
        let gate = Self::tile_of(TileKind::Gate, id, alt);
        let tower = Self::tile_of(TileKind::Tower(RoofKind::Parapet), id, alt);
        let min = aabr.min;
        let max = aabr.max;
        self.blit_aabr(Aabr { min, max: Vec2 { x: max.x, y: min.y + 1 } }, wall_east);
        self.blit_aabr(Aabr { min: Vec2 { x: min.x, y: max.y - 1 }, max }, wall_east);
        self.blit_aabr(Aabr { min, max: Vec2 { x: min.x + 1, y: max.y } }, wall_north);
        self.blit_aabr(Aabr { min: Vec2 { x: max.x - 1, y: min.y }, max }, wall_north);
        let front: i32 = min.x + offset;
        self.tiles.set(Vec2 { x: front - 2, y: min.y }, tower);
        self.tiles.set(Vec2 { x: front - 1, y: min.y }, gate);
        self.tiles.set(Vec2 { x: front, y: min.y }, gate);
        self.tiles.set(Vec2 { x: front + 1, y: min.y }, gate);
        self.tiles.set(Vec2 { x: front + 2, y: min.y }, tower);
        self.tiles.set(min, tower);
        self.tiles.set(Vec2 { x: max.x - 1, y: min.y }, tower);
        self.tiles.set(Vec2 { x: min.x, y: max.y - 1 }, tower);
        self.tiles.set(Vec2 { x: max.x - 1, y: max.y - 1 }, tower);
    }

    fn raise_court(&mut self, id: Id, aabr: Aabr, alt: i32)
        requires
            aabr.width() >= 10,
            aabr.height() >= 10,
            old(self).tiles.bounds.encloses(aabr.min.x as int, aabr.min.y as int),
            old(self).tiles.bounds.encloses(aabr.max.x - 1, aabr.max.y - 1),
        ensures
            final(self).same_but_tiles(*old(self)),
            final(self).tiles.bounds == old(self).tiles.bounds,
            forall|x: int, y: int| #[trigger]
                final(self).tiles.at(x, y) == if in_court(aabr, x, y) && on_grid(x, y) {
                    Tile {
                        kind: court_kind(x - aabr.center_x(), y - aabr.center_y()),
                        plot: Some(id),
                        hard_alt: Some(alt),
                    }
                } else {
                    old(self).tiles.at(x, y)
                },
    {
        let ground = Self::tile_of(TileKind::Road { a: 0, b: 0, w: 0 }, id, alt);
        let wall = Self::tile_of(TileKind::Wall(Dir::Y), id, alt);
        let tower = Self::tile_of(TileKind::Tower(RoofKind::Pyramid), id, alt);
        let keep = Self::tile_of(TileKind::Keep(KeepKind::Middle), id, alt);
        let c = aabr.center();
        self.blit_aabr(
            Aabr {
                min: Vec2 { x: aabr.min.x + 1, y: aabr.min.y + 1 },
                max: Vec2 { x: aabr.max.x - 1, y: aabr.max.y - 1 },
            },
            ground,
        );
        self.blit_aabr(
            Aabr { min: Vec2 { x: c.x - 3, y: c.y - 3 }, max: Vec2 { x: c.x + 3, y: c.y + 3 } },
            wall,
        );
        self.tiles.set(Vec2 { x: c.x + 2, y: c.y + 2 }, tower);
        self.tiles.set(Vec2 { x: c.x + 2, y: c.y - 3 }, tower);
        self.tiles.set(Vec2 { x: c.x - 3, y: c.y + 2 }, tower);
        self.tiles.set(Vec2 { x: c.x - 3, y: c.y - 3 }, tower);
        self.blit_aabr(
            Aabr { min: Vec2 { x: c.x - 2, y: c.y - 2 }, max: Vec2 { x: c.x + 2, y: c.y + 2 } },
            keep,
        );
    }

    /// Adds the plot of a castle over an area and lays out its walls, towers, gate, courtyard
    /// and keep.
    pub fn raise_castle(
        &mut self,
        rng: &mut SiteRng,
        aabr: Aabr,
        offset: i32,
        alt: i32,
    ) -> (id: Id)
        requires
            castle_fits(aabr, offset as int),
        ensures
            is_castle(*old(self), *final(self), id, aabr, offset as int, old(rng).word(), alt),
            *final(rng) == old(rng).skip(1),
            old(self).wf() ==> final(self).wf(),
    {
        let tiles = aabr_tiles(aabr);
        let seed = rng.next_u32();
        let id = self.create_plot(
            Plot { kind: PlotKind::Castle, root_tile: aabr.center(), tiles, seed },
        );
        self.raise_ring(id, aabr, offset, alt);
        self.raise_court(id, aabr, alt);
        id
    }
}

/// Whether `after` is `before` with a castle, numbered `id`, over an area.
pub open spec fn is_castle(
    before: Site,
    after: Site,
    id: Id,
    aabr: Aabr,
    offset: int,
    seed: u32,
    alt: i32,
) -> bool {
    &&& is_plot_added(
        before,
        after,
        id,
        PlotKind::Castle,
        center_tile(aabr),
        area_tiles(aabr),
        seed,
    )
    &&& after.plazas == before.plazas
    &&& after.roads == before.roads
    &&& forall|x: int, y: int| #[trigger]
        after.tiles.at(x, y) == if aabr.holds(x, y) && on_grid(x, y) {
            Tile {
                kind: castle_kind(aabr, offset, x, y),
                plot: Some(id),
                hard_alt: Some(alt),
            }
        } else {
            before.tiles.at(x, y)
        }
    &&& after.tiles.bounds == grown(before.tiles.bounds, aabr)
}

} // verus!
