//! Plazas: where one may go, laying it out, and which others it is joined to.

use crate::geom::{abs_int, max_int, Aabr, Vec2};
use crate::laws::law_plazas_stay_apart;
use crate::plot::{Id, PlotKind};
use crate::rng::SiteRng;
use crate::site::{is_placed, Site};
use crate::tile::TileKind;
use vstd::prelude::*;

verus! {

/// Whether the square of a distance is that of a place far enough from a plaza, for a new plaza
/// of the given radius: more than 0.85 times `6.5 + 4 * radius` tiles away.
pub open spec fn is_far_enough(distance_squared: int, radius: int) -> bool {
    distance_squared * 1600 > 289 * ((13 + 8 * radius) * (13 + 8 * radius))
}

/// The area of a plaza.
pub open spec fn plaza_area(pos: Vec2, radius: int) -> Aabr {
    Aabr {
        min: Vec2 { x: (pos.x - radius) as i32, y: (pos.y - radius) as i32 },
        max: Vec2 { x: (pos.x + radius + 1) as i32, y: (pos.y + radius + 1) as i32 },
    }
}

/// Draws the radius of a plaza.
pub fn plaza_radius(rng: &mut SiteRng) -> (r: i32)
    ensures
        r == old(rng).range_value(1, 4),
        1 <= r <= 3,
        *final(rng) == old(rng).after_range(1, 4),
{
    rng.next_range(1, 4)
}

/// How often a place for a plaza is looked for before giving up.
pub const PLAZA_ATTEMPTS: u32 = 32;

/// The width of the roads that join plazas.
pub const PLAZA_ROAD_WIDTH: u16 = 2;

/// How many roads are made from a new plaza at most.
pub const ROADS_PER_PLAZA: u32 = 2;

/// A search for a place for a plaza.
#[derive(Clone, Copy, PartialEq, Eq, Structural, Debug)]
pub struct PlazaSearch {
    pub radius: i32,
    /// How often a place can still be tried.
    pub attempts: u32,
    /// The first place that was found.
    pub found: Option<Vec2>,
}

impl PlazaSearch {
    /// Starts a search for a plaza of a radius that is drawn.
    pub fn start(rng: &mut SiteRng) -> (r: PlazaSearch)
        ensures
            r.radius == old(rng).range_value(1, 4),
            1 <= r.radius <= 3,
            r.attempts == PLAZA_ATTEMPTS,
            r.found is None,
            forall|site: Site| #[trigger] r.is_on(site),
            *final(rng) == old(rng).after_range(1, 4),
    {
        PlazaSearch { radius: plaza_radius(rng), attempts: PLAZA_ATTEMPTS, found: None }
    }

    /// Whether nothing is tried any more.
    pub open spec fn spec_is_over(self) -> bool {
        self.found is Some || self.attempts == 0
    }

    pub fn is_over(&self) -> (r: bool)
        ensures
            r == self.spec_is_over(),
    {
        self.found.is_some() || self.attempts == 0
    }

    /// Whether this is a search on `site`: what it found is a place for a plaza there.
    pub open spec fn is_on(self, site: Site) -> bool {
        &&& 1 <= self.radius <= 3
        &&& self.found matches Some(tile) ==> {
            &&& -47 < tile.x < 47
            &&& -47 < tile.y < 47
            &&& site.is_plaza_free(tile, self.radius as int)
        }
    }

    /// Tries one place, `offset` from an anchor, as [`Site::plaza_candidate`] does. Nothing is
    /// tried any more once a place is found or all attempts are used up.
    pub fn try_place(
        &mut self,
        site: &Site,
        rng: &mut SiteRng,
        anchor: Option<Vec2>,
        offset: Vec2,
    ) -> (r: Option<Vec2>)
        requires
            site.wf(),
            anchor matches Some(tile) ==> tile.offset_fits(offset.x as int, offset.y as int),
        ensures
            final(self).radius == old(self).radius,
            old(self).spec_is_over() ==> r is None && *final(self) == *old(self) && *final(rng)
                == *old(rng),
            !old(self).spec_is_over() ==> final(self).attempts == old(self).attempts - 1
                && final(self).found == r && site.is_plaza_tried(
                *old(rng),
                *final(rng),
                anchor,
                offset,
                old(self).radius,
                r,
            ),
            r matches Some(tile) ==> -47 < tile.x < 47 && -47 < tile.y < 47,
            old(self).is_on(*site) ==> final(self).is_on(*site),
    {
        if self.is_over() {
            return None;
        }
        self.attempts = self.attempts - 1;
        self.found = site.plaza_candidate(rng, anchor, offset, self.radius);
        self.found
    }

    /// Lays out a plaza at the place that was found, if any. Plazas stay apart.
    pub fn lay(self, site: &mut Site, rng: &mut SiteRng, alt: i32) -> (r: Option<Id>)
        requires
            old(site).wf(),
            self.is_on(*old(site)),
        ensures
            r is Some <==> self.found is Some,
            self.found is None ==> *final(site) == *old(site) && *final(rng) == *old(rng),
            self.found matches Some(pos) ==> {
                &&& is_plaza_laid(
                    *old(site),
                    *final(site),
                    r->0,
                    pos,
                    self.radius,
                    old(rng).word(),
                    alt,
                )
                &&& *final(rng) == old(rng).skip(1)
            },
            final(site).wf(),
            old(site).plazas_apart() ==> final(site).plazas_apart(),
    {
        match self.found {
            Some(pos) => {
                let ghost seed = rng.word();
                let id = site.make_plaza(rng, pos, self.radius, alt);
                proof {
                    if old(site).plazas_apart() {
                        law_plazas_stay_apart(*old(site), *site, id, pos, self.radius, seed, alt);
                    }
                }
                Some(id)
            },
            None => None,
        }
    }
}

/// Whether `after` is `before` with a plaza, numbered `id`, laid out.
pub open spec fn is_plaza_laid(
    before: Site,
    after: Site,
    id: Id,
    pos: Vec2,
    radius: i32,
    seed: u32,
    alt: i32,
) -> bool {
    &&& is_placed(
        before,
        after,
        id,
        PlotKind::Plaza,
        pos,
        plaza_area(pos, radius as int),
        seed,
        TileKind::Plaza,
        Some(alt),
    )
    &&& after.plazas@ == before.plazas@.push(id)
    &&& after.roads == before.roads
}

/// The roads that are still to be made from a new plaza to others.
#[derive(Debug)]
pub struct PlazaLinks {
    pub plaza: Id,
    /// The root tile of the plaza.
    pub pos: Vec2,
    /// How many roads are still to be made at most.
    pub left: u32,
    /// The plazas that it has been joined to.
    pub pathed: Vec<Id>,
}

impl PlazaLinks {
    /// Starts to join a plaza to at most `roads` others.
    pub fn start(plaza: Id, pos: Vec2, roads: u32) -> (r: PlazaLinks)
        ensures
            r.plaza == plaza,
            r.pos == pos,
            r.left == roads,
            r.pathed@ == Seq::<Id>::empty(),
            r.wf(),
    {
        PlazaLinks { plaza, pos, left: roads, pathed: Vec::new() }
    }

    /// A plaza is joined neither to itself nor to another one twice.
    pub open spec fn wf(self) -> bool {
        &&& self.pathed@.no_duplicates()
        &&& !self.pathed@.contains(self.plaza)
    }

    /// The plaza to join next, by [`Site::next_plaza`]. There is none once enough roads have been
    /// made, nor after there was none before.
    pub fn next_link(&mut self, site: &Site, opposed: &Vec<bool>) -> (r: Option<Id>)
        requires
            old(self).wf(),
            site.wf(),
            opposed@.len() == site.plazas@.len(),
        ensures
            final(self).wf(),
            final(self).plaza == old(self).plaza,
            final(self).pos == old(self).pos,
            old(self).left == 0 ==> r is None,
            old(self).left > 0 ==> site.is_next_plaza(
                old(self).plaza,
                old(self).pos,
                old(self).pathed@,
                opposed@,
                r,
            ),
            r is None ==> final(self).left == 0 && final(self).pathed == old(self).pathed,
            r matches Some(id) ==> final(self).left == old(self).left - 1 && final(self).pathed@
                == old(self).pathed@.push(id),
    {
        if self.left == 0 {
            return None;
        }
        match site.next_plaza(self.plaza, self.pos, &self.pathed, opposed) {
            Some(id) => {
                self.left = self.left - 1;
                self.pathed.push(id);
                Some(id)
            },
            None => {
                self.left = 0;
                None
            },
        }
    }
}

impl Site {
    /// The root tile of a plaza that is picked at random, if there is any.
    pub fn plaza_anchor(&self, rng: &mut SiteRng) -> (r: Option<Vec2>)
        requires
            self.wf(),
        ensures
            r is Some <==> self.plazas@.len() > 0,
            r matches Some(tile) ==> tile == self.plot_of(
                self.plazas@[old(rng).choice(self.plazas@.len())],
            ).root_tile,
            *final(rng) == old(rng).after_choice(self.plazas@.len()),
    {
        match rng.pick(&self.plazas) {
            Some(id) => Some(self.plot(id).root_tile),
            None => None,
        }
    }

    /// Whether every plaza is far enough from a tile for a plaza of the given radius there.
    pub open spec fn plazas_far_from(self, tile: Vec2, radius: int) -> bool {
        forall|i: int|
            0 <= i < self.plazas@.len() ==> is_far_enough(
                self.plot_of(#[trigger] self.plazas@[i]).root_tile.distance_squared_to(tile),
                radius,
            )
    }

    fn are_plazas_far(&self, tile: Vec2, radius: i32) -> (r: bool)
        requires
            self.wf(),
        ensures
            r == self.plazas_far_from(tile, radius as int),
    {
        let d: i128 = 13 + 8 * (radius as i128);
        assert(0 <= d * d <= 0x10_0000_0000 * 0x10_0000_0000) by (nonlinear_arith)
            requires
                -0x10_0000_0000 <= d <= 0x10_0000_0000,
        ;
        let least: i128 = 289 * (d * d);
        let mut i: usize = 0;
        while i < self.plazas.len()
            invariant
                self.wf(),
                i <= self.plazas@.len(),
                least == 289 * ((13 + 8 * radius) * (13 + 8 * radius)),
                forall|j: int|
                    0 <= j < i ==> is_far_enough(
                        self.plot_of(#[trigger] self.plazas@[j]).root_tile.distance_squared_to(
                            tile,
                        ),
                        radius as int,
                    ),
            decreases self.plazas@.len() - i,
        {
            let root = self.plot(self.plazas[i]).root_tile;
            let d2 = root.distance_squared(tile);
            proof {
                let dx = root.x - tile.x;
                let dy = root.y - tile.y;
                assert(dx * dx + dy * dy <= 2 * 0x1_0000_0000 * 0x1_0000_0000 && 0 <= dx * dx
                    + dy * dy) by (nonlinear_arith)
                    requires
                        -0x1_0000_0000 <= dx <= 0x1_0000_0000,
                        -0x1_0000_0000 <= dy <= 0x1_0000_0000,
                ;
            }
            if d2 * 1600 <= least {
                assert(!is_far_enough(
                    self.plot_of(self.plazas@[i as int]).root_tile.distance_squared_to(tile),
                    radius as int,
                ));
                return false;
            }
            i = i + 1;
        }
        true
    }

    /// Whether no two plazas are nearer to each other than the smallest plaza allows.
    pub open spec fn plazas_apart(self) -> bool {
        forall|i: int, j: int|
            0 <= i < j < self.plazas@.len() ==> is_far_enough(
                self.plot_of(#[trigger] self.plazas@[i]).root_tile.distance_squared_to(
                    self.plot_of(#[trigger] self.plazas@[j]).root_tile,
                ),
                1,
            )
    }

    /// Where a plaza would go that is `offset` from an anchor, or in the middle without one.
    pub open spec fn plaza_tile(anchor: Option<Vec2>, offset: Vec2) -> Vec2 {
        match anchor {
            Some(tile) => Vec2 { x: (tile.x + offset.x) as i32, y: (tile.y + offset.y) as i32 },
            None => Vec2 { x: 0, y: 0 },
        }
    }

    /// Whether a plaza can be considered on a tile: nothing stands there and no plaza is near.
    pub open spec fn is_plaza_free(self, tile: Vec2, radius: int) -> bool {
        !self.tiles.at_pos(tile).spec_is_obstacle() && self.plazas_far_from(tile, radius)
    }

    /// Whether trying a place for a plaza gives `r`, and the generator after it.
    pub open spec fn is_plaza_tried(
        self,
        rng: SiteRng,
        rng_after: SiteRng,
        anchor: Option<Vec2>,
        offset: Vec2,
        radius: i32,
        r: Option<Vec2>,
    ) -> bool {
        let tile = Self::plaza_tile(anchor, offset);
        let free = self.is_plaza_free(tile, radius as int);
        let draw = rng.range_value(0, 48);
        &&& r == if free && draw > max_int(abs_int(tile.x as int), abs_int(tile.y as int)) {
            Some(tile)
        } else {
            None
        }
        &&& rng_after == if free {
            rng.after_range(0, 48)
        } else {
            rng
        }
    }

    /// Tries one place for a plaza, `offset` from an anchor. An obstacle or a plaza too near rules
    /// the place out; otherwise a draw decides, with better odds near the middle of the site.
    pub fn plaza_candidate(
        &self,
        rng: &mut SiteRng,
        anchor: Option<Vec2>,
        offset: Vec2,
        radius: i32,
    ) -> (r: Option<Vec2>)
        requires
            self.wf(),
            anchor matches Some(tile) ==> tile.offset_fits(offset.x as int, offset.y as int),
        ensures
            self.is_plaza_tried(*old(rng), *final(rng), anchor, offset, radius, r),
            r matches Some(tile) ==> -47 < tile.x < 47 && -47 < tile.y < 47,
    {
        let tile = match anchor {
            Some(tile) => tile.offset(offset.x, offset.y),
            None => Vec2 { x: 0, y: 0 },
        };
        if self.tiles.get(tile).is_obstacle() {
            return None;
        }
        if !self.are_plazas_far(tile, radius) {
            return None;
        }
        let draw = rng.next_range(0, 48);
        if draw > tile.x && -draw < tile.x && draw > tile.y && -draw < tile.y {
            Some(tile)
        } else {
            None
        }
    }

    /// Lays out a plaza.
    pub fn make_plaza(&mut self, rng: &mut SiteRng, pos: Vec2, radius: i32, alt: i32) -> (id: Id)
        requires
            pos.offset_fits(-radius as int, -radius as int),
            pos.offset_fits(radius + 1, radius + 1),
        ensures
            is_plaza_laid(*old(self), *final(self), id, pos, radius, old(rng).word(), alt),
            *final(rng) == old(rng).skip(1),
            old(self).wf() ==> final(self).wf(),
    {
        let aabr = Aabr {
            min: Vec2 { x: pos.x - radius, y: pos.y - radius },
            max: Vec2 { x: pos.x + 1 + radius, y: pos.y + 1 + radius },
        };
        let id = self.place_at(rng, PlotKind::Plaza, pos, aabr, TileKind::Plaza, Some(alt));
        self.plazas.push(id);
        id
    }

    /// Whether the `i`-th plaza is one that the plaza `from` can still be joined to.
    pub open spec fn can_join(self, from: Id, pathed: Seq<Id>, opposed: Seq<bool>, i: int) -> bool {
        !pathed.contains(self.plazas@[i]) && self.plazas@[i] != from && opposed[i]
    }

    /// How far the `i`-th plaza is from a tile, squared.
    pub open spec fn plaza_distance(self, i: int, pos: Vec2) -> int {
        self.plot_of(self.plazas@[i]).root_tile.distance_squared_to(pos)
    }

    /// Whether `r` is the nearest plaza that the plaza `from` at `pos` can still be joined to, the
    /// oldest of several at the same distance; nothing if there is no such plaza.
    pub open spec fn is_next_plaza(
        self,
        from: Id,
        pos: Vec2,
        pathed: Seq<Id>,
        opposed: Seq<bool>,
        r: Option<Id>,
    ) -> bool {
        match r {
            None => forall|i: int|
                0 <= i < self.plazas@.len() ==> !(#[trigger] self.can_join(
                    from,
                    pathed,
                    opposed,
                    i,
                )),
            Some(id) => exists|i: int|
                {
                    &&& 0 <= i < self.plazas@.len()
                    &&& #[trigger] self.can_join(from, pathed, opposed, i)
                    &&& id == self.plazas@[i]
                    &&& forall|j: int|
                        0 <= j < self.plazas@.len() && #[trigger] self.can_join(
                            from,
                            pathed,
                            opposed,
                            j,
                        ) ==> self.plaza_distance(i, pos) <= self.plaza_distance(j, pos) && (j < i
                            ==> self.plaza_distance(i, pos) < self.plaza_distance(j, pos))
                },
        }
    }

    /// The plaza that the plaza `from` at `pos` is to be joined to next: the nearest that it is
    /// not joined to yet, among those for which `opposed` says that they lie in another direction
    /// than all that it is joined to. Of several at the same distance the oldest counts.
    pub fn next_plaza(
        &self,
        from: Id,
        pos: Vec2,
        pathed: &Vec<Id>,
        opposed: &Vec<bool>,
    ) -> (r: Option<Id>)
        requires
            self.wf(),
            opposed@.len() == self.plazas@.len(),
        ensures
            self.is_next_plaza(from, pos, pathed@, opposed@, r),
    {
        let mut best: Option<(usize, i128)> = None;
        let mut i: usize = 0;
        while i < self.plazas.len()
            invariant
                self.wf(),
                opposed@.len() == self.plazas@.len(),
                i <= self.plazas@.len(),
                best is None ==> forall|j: int|
                    0 <= j < i ==> !(#[trigger] self.can_join(from, pathed@, opposed@, j)),
                best matches Some((b, d)) ==> {
                    &&& b < i
                    &&& d == self.plaza_distance(b as int, pos)
                    &&& self.can_join(from, pathed@, opposed@, b as int)
                    &&& forall|j: int|
                        0 <= j < i && #[trigger] self.can_join(from, pathed@, opposed@, j)
                            ==> self.plaza_distance(b as int, pos) <= self.plaza_distance(j, pos)
                            && (j < b ==> self.plaza_distance(b as int, pos) < self.plaza_distance(
                            j,
                            pos,
                        ))
                },
            decreases self.plazas@.len() - i,
        {
            let id = self.plazas[i];
            if opposed[i] && id.idx != from.idx && !Self::contains_id(pathed, id) {
                let d = self.plot(id).root_tile.distance_squared(pos);
                let nearer = match best {
                    Some((_, least)) => d < least,
                    None => true,
                };
                if nearer {
                    best = Some((i, d));
                }
            }
            i = i + 1;
        }
        match best {
            Some((b, _)) => {
                assert(self.can_join(from, pathed@, opposed@, b as int));
                Some(self.plazas[b])
            },
            None => None,
        }
    }

    fn contains_id(ids: &Vec<Id>, id: Id) -> (r: bool)
        ensures
            r == ids@.contains(id),
    {
        let mut i: usize = 0;
        while i < ids.len()
            invariant
                i <= ids@.len(),
                forall|j: int| 0 <= j < i ==> ids@[j] != id,
            decreases ids@.len() - i,
        {
            if ids[i].idx == id.idx {
                assert(ids@[i as int] == id);
                return true;
            }
            i = i + 1;
        }
        false
    }
}

} // verus!
