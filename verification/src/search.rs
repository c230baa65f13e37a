//! Where to build: places beside a road or a plaza.

use crate::geom::{Aabr, Vec2};
use crate::plot::{bounds_of, Plot, PlotKind};
use crate::rng::SiteRng;
use crate::roads::{covers, road_reach};
use crate::site::Site;
use crate::town::SearchPlan;
use vstd::prelude::*;

verus! {

/// Whether the position `dir` beyond the edge of a plot is representable.
pub open spec fn beyond_fits(plot: Plot, dir: Vec2) -> bool {
    let b = bounds_of(plot.root_tile, plot.tiles@);
    plot.root_tile.offset_fits(dir.x * (b.width() + 1), dir.y * (b.height() + 1))
}

/// Whether the tiles `dir` from the nodes of a road have representable positions.
pub open spec fn nodes_fit(plot: Plot, dir: Vec2) -> bool {
    plot.kind matches PlotKind::Road(path) ==> forall|i: int|
        0 <= i < path@.len() ==> (#[trigger] path@[i]).offset_fits(dir.x as int, dir.y as int)
}

/// The position `dir` beyond the edge of a plot, seen from its root tile.
pub open spec fn beyond(plot: Plot, dir: Vec2) -> Vec2 {
    let b = bounds_of(plot.root_tile, plot.tiles@);
    Vec2 {
        x: (plot.root_tile.x + dir.x * (b.width() + 1)) as i32,
        y: (plot.root_tile.y + dir.y * (b.height() + 1)) as i32,
    }
}

/// A search for an area to build on, beside a plaza or a road.
#[derive(Clone, Copy, Debug)]
pub struct AreaSearch {
    pub plan: SearchPlan,
    /// How often an area can still be looked for.
    pub attempts: u32,
    /// Where to look now.
    pub pos: Option<Vec2>,
    /// The first area that was found, the tile of its door, and the step from there to the road.
    pub found: Option<(Aabr, Vec2, Vec2)>,
}

impl AreaSearch {
    /// Starts a search by plan.
    pub fn start(plan: SearchPlan) -> (r: AreaSearch)
        ensures
            r.plan == plan,
            r.attempts == plan.attempts,
            r.pos is None,
            r.found is None,
            forall|site: Site| #[trigger] r.is_on(site),
    {
        AreaSearch { plan, attempts: plan.attempts, pos: None, found: None }
    }

    /// Whether nothing is looked for any more.
    pub open spec fn spec_is_over(self) -> bool {
        self.found is Some || self.pos is None && self.attempts == 0
    }

    pub fn is_over(&self) -> (r: bool)
        ensures
            r == self.spec_is_over(),
    {
        self.found.is_some() || self.pos.is_none() && self.attempts == 0
    }

    /// Whether this is a search on `site`: there is a plaza or a road to look beside, and the door
    /// of what was found leads to a road.
    pub open spec fn is_on(self, site: Site) -> bool {
        &&& self.pos is Some || self.found is Some ==> site.plazas@.len() > 0 || site.roads@.len()
            > 0
        &&& self.found matches Some((_, door, dir)) ==> site.access(door.x as int, door.y as int)
            == Some(dir)
    }

    /// Where to look next, as [`Site::roadside_pos`] picks it. This uses up one attempt, also if
    /// there is no place to look at. Nothing is picked once an area is found or all attempts are
    /// used up.
    pub fn next_pos(&mut self, site: &Site, rng: &mut SiteRng, dir: Vec2) -> (r: Option<Vec2>)
        requires
            site.wf(),
            site.roadside_fits(dir),
        ensures
            final(self).plan == old(self).plan,
            final(self).found == old(self).found,
            final(self).pos == r,
            old(self).found is Some || old(self).attempts == 0 ==> r is None && final(self).attempts
                == old(self).attempts && *final(rng) == *old(rng),
            old(self).found is None && old(self).attempts > 0 ==> final(self).attempts == old(
                self,
            ).attempts - 1 && (r, *final(rng)) == site.roadside(*old(rng), dir),
            old(self).is_on(*site) ==> final(self).is_on(*site),
    {
        if self.found.is_some() || self.attempts == 0 {
            self.pos = None;
            return None;
        }
        self.attempts = self.attempts - 1;
        self.pos = site.roadside_pos(rng, dir);
        self.pos
    }

    /// Looks through the tiles around the place to look at as [`Site::find_aabr`] does, and keeps
    /// what is found. Without such a place nothing is looked at, and what was found before stays.
    pub fn look(&mut self, site: &Site, near: &Vec<Vec2>, grown: &Vec<Option<Aabr>>)
        requires
            near@.len() == grown@.len(),
        ensures
            final(self).plan == old(self).plan,
            final(self).attempts == old(self).attempts,
            final(self).pos is None,
            old(self).found is Some || old(self).pos is None ==> final(self).found == old(
                self,
            ).found,
            old(self).found is None && old(self).pos is Some ==> site.is_area_found(
                near@,
                grown@,
                final(self).found,
            ),
            old(self).is_on(*site) ==> final(self).is_on(*site),
    {
        if self.found.is_none() && self.pos.is_some() {
            self.found = site.find_aabr(near, grown);
        }
        self.pos = None;
    }
}

impl Site {
    /// The step from a tile to the road beside it. Of several, the first of up, right, down and
    /// left counts.
    pub open spec fn access(self, x: int, y: int) -> Option<Vec2> {
        if self.tiles.at(x, y + 1).spec_is_road() {
            Some(Vec2 { x: 0, y: 1 })
        } else if self.tiles.at(x + 1, y).spec_is_road() {
            Some(Vec2 { x: 1, y: 0 })
        } else if self.tiles.at(x, y - 1).spec_is_road() {
            Some(Vec2 { x: 0, y: (-1) as i32 })
        } else if self.tiles.at(x - 1, y).spec_is_road() {
            Some(Vec2 { x: (-1) as i32, y: 0 })
        } else {
            None
        }
    }

    /// The step from a tile to the road beside it, if there is one.
    pub fn road_access(&self, tile: Vec2) -> (r: Option<Vec2>)
        ensures
            r == self.access(tile.x as int, tile.y as int),
    {
        let x: i64 = tile.x as i64;
        let y: i64 = tile.y as i64;
        if self.tiles.get_xy(x, y + 1).is_road() {
            Some(Vec2 { x: 0, y: 1 })
        } else if self.tiles.get_xy(x + 1, y).is_road() {
            Some(Vec2 { x: 1, y: 0 })
        } else if self.tiles.get_xy(x, y - 1).is_road() {
            Some(Vec2 { x: 0, y: -1 })
        } else if self.tiles.get_xy(x - 1, y).is_road() {
            Some(Vec2 { x: -1, y: 0 })
        } else {
            None
        }
    }

    /// Whether the `i`-th of some tiles lies beside a road and is in an area that can be built on.
    pub open spec fn suits(self, near: Seq<Vec2>, grown: Seq<Option<Aabr>>, i: int) -> bool {
        self.access(near[i].x as int, near[i].y as int) is Some && grown[i] is Some
    }

    /// Whether `r` is the area that grows from the first of some tiles that suits, with its door
    /// and the step from there to the road; nothing if none suits.
    pub open spec fn is_area_found(
        self,
        near: Seq<Vec2>,
        grown: Seq<Option<Aabr>>,
        r: Option<(Aabr, Vec2, Vec2)>,
    ) -> bool {
        match r {
            None => forall|i: int|
                0 <= i < near.len() ==> !(#[trigger] self.suits(near, grown, i)),
            Some((aabr, door, dir)) => exists|i: int|
                {
                    &&& 0 <= i < near.len()
                    &&& #[trigger] self.suits(near, grown, i)
                    &&& forall|j: int| 0 <= j < i ==> !(#[trigger] self.suits(near, grown, j))
                    &&& Some(aabr) == grown[i]
                    &&& door == near[i]
                    &&& Some(dir) == self.access(near[i].x as int, near[i].y as int)
                },
        }
    }

    /// Looks through tiles, given in the order of preference, for one beside a road from which an
    /// area can be grown. `grown` holds the area that grows from each tile, if it is large enough.
    /// Gives the area, the tile of its door and the step from there to the road.
    pub fn find_aabr(
        &self,
        near: &Vec<Vec2>,
        grown: &Vec<Option<Aabr>>,
    ) -> (r: Option<(Aabr, Vec2, Vec2)>)
        requires
            near@.len() == grown@.len(),
        ensures
            self.is_area_found(near@, grown@, r),
    {
        let mut i: usize = 0;
        while i < near.len()
            invariant
                near@.len() == grown@.len(),
                i <= near@.len(),
                forall|j: int| 0 <= j < i ==> !(#[trigger] self.suits(near@, grown@, j)),
            decreases near@.len() - i,
        {
            match self.road_access(near[i]) {
                Some(dir) => match grown[i] {
                    Some(aabr) => {
                        assert(self.suits(near@, grown@, i as int));
                        return Some((aabr, near[i], dir));
                    },
                    None => {},
                },
                None => {},
            }
            i = i + 1;
        }
        None
    }

    /// What [`roadside_pos`](Site::roadside_pos) gives, and the generator after it.
    pub open spec fn roadside(self, rng: SiteRng, dir: Vec2) -> (Option<Vec2>, SiteRng) {
        let plazas = self.plazas@;
        let roads = self.roads@;
        let rng1 = rng.skip(1);
        if rng.word() >= 0x8000_0000 {
            (
                if plazas.len() == 0 {
                    None
                } else {
                    Some(beyond(self.plot_of(plazas[rng1.choice(plazas.len())]), dir))
                },
                rng1.after_choice(plazas.len()),
            )
        } else if roads.len() == 0 {
            (None, rng1.after_choice(0))
        } else {
            let rng2 = rng1.after_choice(roads.len());
            let path = self.plot_of(roads[rng1.choice(roads.len())]).kind->Road_0@;
            (
                if path.len() == 0 {
                    None
                } else {
                    let node = path[rng2.choice(path.len())];
                    Some(Vec2 { x: (node.x + dir.x) as i32, y: (node.y + dir.y) as i32 })
                },
                rng2.after_choice(path.len()),
            )
        }
    }

    /// Whether what is `dir` from the plazas and roads has representable positions.
    pub open spec fn roadside_fits(self, dir: Vec2) -> bool {
        &&& -1 <= dir.x <= 1
        &&& -1 <= dir.y <= 1
        &&& forall|i: int|
            0 <= i < self.plazas@.len() ==> beyond_fits(
                self.plot_of(#[trigger] self.plazas@[i]),
                dir,
            )
        &&& forall|i: int|
            0 <= i < self.roads@.len() ==> nodes_fit(
                self.plot_of(#[trigger] self.roads@[i]),
                dir,
            )
    }

    /// Picks where to look for a place to build: by even odds beyond the edge of some plaza in
    /// direction `dir`, or `dir` from some node of some road. Gives nothing if there is no plaza
    /// or no road to go by.
    pub fn roadside_pos(&self, rng: &mut SiteRng, dir: Vec2) -> (r: Option<Vec2>)
        requires
            self.wf(),
            self.roadside_fits(dir),
        ensures
            (r, *final(rng)) == self.roadside(*old(rng), dir),
    {
        if rng.next_bool() {
            match rng.pick(&self.plazas) {
                Some(id) => {
                    let plot = self.plot(id);
                    let b = plot.find_bounds();
                    assert(beyond_fits(*plot, dir));
                    proof {
                        lemma_bounds_are_ordered(plot.root_tile, plot.tiles@);
                    }
                    let w: i64 = b.max.x as i64 - b.min.x as i64 + 1;
                    let h: i64 = b.max.y as i64 - b.min.y as i64 + 1;
                    let dx: i64 = if dir.x == 0 {
                        0
                    } else if dir.x > 0 {
                        w
                    } else {
                        -w
                    };
                    let dy: i64 = if dir.y == 0 {
                        0
                    } else if dir.y > 0 {
                        h
                    } else {
                        -h
                    };
                    assert(dx == dir.x * w) by (nonlinear_arith)
                        requires
                            dx == (if dir.x == 0 { 0int } else if dir.x > 0 { w as int } else { -w }),
                            -1 <= dir.x <= 1,
                    ;
                    assert(dy == dir.y * h) by (nonlinear_arith)
                        requires
                            dy == (if dir.y == 0 { 0int } else if dir.y > 0 { h as int } else { -h }),
                            -1 <= dir.y <= 1,
                    ;
                    let x: i64 = plot.root_tile.x as i64 + dx;
                    let y: i64 = plot.root_tile.y as i64 + dy;
                    Some(Vec2 { x: x as i32, y: y as i32 })
                },
                None => None,
            }
        } else {
            match rng.pick(&self.roads) {
                Some(id) => {
                    let plot = self.plot(id);
                    assert(nodes_fit(*plot, dir));
                    assert(plot.kind is Road);
                    if let PlotKind::Road(path) = &plot.kind {
                        match rng.pick(path) {
                            Some(node) => Some(node.offset(dir.x, dir.y)),
                            None => None,
                        }
                    } else {
                        None
                    }
                },
                None => None,
            }
        }
    }

    /// What it costs a road of width `w` to pass over a tile, beyond the distance still to go:
    /// much if something stands in the way, little if the ground is taken, nothing otherwise.
    pub fn road_obstruction(&self, tile: Vec2, w: u16) -> (r: u32)
        ensures
            r == if self.is_obstructed(tile, w) {
                1000
            } else if self.is_taken(tile, w) {
                25
            } else {
                0int
            },
    {
        let reach: i64 = (w / 2) as i64;
        let mut obstructed = false;
        let mut taken = false;
        let mut y: i64 = tile.y as i64 - reach;
        let y_end: i64 = tile.y as i64 + reach;
        let x_start: i64 = tile.x as i64 - reach;
        let x_end: i64 = tile.x as i64 + reach;
        while y < y_end
            invariant
                reach == road_reach(w),
                y_end == tile.y + reach,
                x_start == tile.x - reach,
                x_end == tile.x + reach,
                tile.y - reach <= y <= y_end,
                obstructed ==> self.is_obstructed(tile, w),
                taken ==> self.is_taken(tile, w),
                !obstructed ==> forall|u: int, v: int|
                    covers(tile, w, u, v) && v < y ==> !(
                    #[trigger] self.tiles.at(u, v)).spec_is_obstacle(),
                !obstructed && !taken ==> forall|u: int, v: int|
                    covers(tile, w, u, v) && v < y ==> (#[trigger] self.tiles.at(
                        u,
                        v,
                    )).spec_is_empty(),
            decreases y_end - y,
        {
            let mut x: i64 = x_start;
            while x < x_end
                invariant
                    reach == road_reach(w),
                    y_end == tile.y + reach,
                    x_start == tile.x - reach,
                    x_end == tile.x + reach,
                    tile.y - reach <= y < y_end,
                    x_start <= x <= x_end,
                    obstructed ==> self.is_obstructed(tile, w),
                    taken ==> self.is_taken(tile, w),
                    !obstructed ==> forall|u: int, v: int|
                        covers(tile, w, u, v) && (v < y || v == y && u < x) ==> !(
                        #[trigger] self.tiles.at(u, v)).spec_is_obstacle(),
                    !obstructed && !taken ==> forall|u: int, v: int|
                        covers(tile, w, u, v) && (v < y || v == y && u < x) ==> (
                        #[trigger] self.tiles.at(u, v)).spec_is_empty(),
                decreases x_end - x,
            {
                let there = self.tiles.get_xy(x, y);
                if there.is_obstacle() {
                    assert(covers(tile, w, x as int, y as int) && self.tiles.at(
                        x as int,
                        y as int,
                    ).spec_is_obstacle());
                    obstructed = true;
                } else if !there.is_empty() {
                    assert(covers(tile, w, x as int, y as int) && !self.tiles.at(
                        x as int,
                        y as int,
                    ).spec_is_empty());
                    taken = true;
                }
                x = x + 1;
            }
            y = y + 1;
        }
        if obstructed {
            1000
        } else if taken {
            25
        } else {
            0
        }
    }

    /// Whether an obstacle stands where a road of width `w` around a tile would go.
    pub open spec fn is_obstructed(self, tile: Vec2, w: u16) -> bool {
        exists|x: int, y: int|
            covers(tile, w, x, y) && (#[trigger] self.tiles.at(x, y)).spec_is_obstacle()
    }

    /// Whether anything is where a road of width `w` around a tile would go.
    pub open spec fn is_taken(self, tile: Vec2, w: u16) -> bool {
        exists|x: int, y: int|
            covers(tile, w, x, y) && !(#[trigger] self.tiles.at(x, y)).spec_is_empty()
    }
}

proof fn lemma_bounds_are_ordered(root: Vec2, tiles: Seq<Vec2>)
    ensures
        bounds_of(root, tiles).width() >= 0,
        bounds_of(root, tiles).height() >= 0,
    decreases tiles.len(),
{
    if tiles.len() > 0 {
        lemma_bounds_are_ordered(root, tiles.drop_last());
    }
}

} // verus!
