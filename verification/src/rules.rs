//! What a site lets happen around it, and which of its plots have a say.

use crate::coords::{distance_to_tile_squared, tile_of_block};
use crate::geom::{clamp_int, Vec2};
use crate::plot::{Id, PlotKind};
use crate::site::Site;
use vstd::prelude::*;

verus! {

/// What may spawn at a position, as far as the tiles of a site are concerned.
#[derive(Clone, Copy, PartialEq, Eq, Structural, Debug)]
pub struct SpawnRules {
    pub trees: bool,
    /// The square of the distance to the nearest tile nearby that is not left to nature, in
    /// blocks; nothing if there is no such tile. The ground may warp by that distance over the
    /// length of a tile, or by one without such a tile.
    pub warp_squared: Option<i32>,
    pub paths: bool,
    pub waypoints: bool,
}

/// Whether `ids` holds, in ascending order and once each, the numbers below `n` for which `wanted`
/// holds.
pub open spec fn is_listing(ids: Seq<Id>, n: nat, wanted: spec_fn(int) -> bool) -> bool {
    &&& forall|i: int, j: int| 0 <= i < j < ids.len() ==> (#[trigger] ids[i]).idx < (
    #[trigger] ids[j]).idx
    &&& forall|i: int|
        0 <= i < ids.len() ==> (#[trigger] ids[i]).idx < n && wanted(ids[i].idx as int)
    &&& forall|k: int|
        0 <= k < n && #[trigger] wanted(k) ==> ids.contains(Id { idx: k as usize })
}

impl PlotKind {
    /// Whether plots of this kind have spawn rules of their own.
    pub open spec fn spec_has_spawn_rules(self) -> bool {
        ||| self is Dungeon
        ||| self is Gnarling
        ||| self is Adlet
        ||| self is SeaChapel
        ||| self is Haniwa
        ||| self is TerracottaPalace
        ||| self is TerracottaHouse
        ||| self is TerracottaYard
    }

    pub fn has_spawn_rules(&self) -> (r: bool)
        ensures
            r == self.spec_has_spawn_rules(),
    {
        matches!(
            self,
            PlotKind::Dungeon { .. } | PlotKind::Gnarling | PlotKind::Adlet | PlotKind::SeaChapel
                | PlotKind::Haniwa | PlotKind::TerracottaPalace | PlotKind::TerracottaHouse
                | PlotKind::TerracottaYard
        )
    }

    /// Whether plots of this kind add entities to the chunks that they lie in.
    pub open spec fn spec_has_supplement(self) -> bool {
        self is Dungeon || self is Gnarling || self is Adlet
    }

    pub fn has_supplement(&self) -> (r: bool)
        ensures
            r == self.spec_has_supplement(),
    {
        matches!(self, PlotKind::Dungeon { .. } | PlotKind::Gnarling | PlotKind::Adlet)
    }
}

impl Site {
    /// Whether the tile at `(x, y)` is next to the tile at `(cx, cy)` or the same, and not left to
    /// nature.
    pub open spec fn is_built_near(self, cx: int, cy: int, x: int, y: int) -> bool {
        &&& cx - 1 <= x <= cx + 1
        &&& cy - 1 <= y <= cy + 1
        &&& !self.tiles.at(x, y).spec_is_natural()
    }

    /// The square of the distance from a position to the nearest tile that is not left to nature,
    /// among the tile that it lies in and those around it.
    fn warp_squared(&self, wpos: Vec2) -> (r: Option<i32>)
        ensures
            ({
                let cx = tile_of_block(self.origin.x as int, wpos.x as int);
                let cy = tile_of_block(self.origin.y as int, wpos.y as int);
                self.is_warp(wpos, cx, cy, r)
            }),
    {
        let c = self.wpos_tile_pos(wpos);
        let cx: i64 = c.x as i64;
        let cy: i64 = c.y as i64;
        let mut best: Option<i32> = None;
        let mut y: i64 = cy - 1;
        while y < cy + 2
            invariant
                cx == tile_of_block(self.origin.x as int, wpos.x as int),
                cy == tile_of_block(self.origin.y as int, wpos.y as int),
                i32::MIN <= cx <= i32::MAX,
                i32::MIN <= cy <= i32::MAX,
                cy - 1 <= y <= cy + 2,
                self.is_warp_among(wpos, cx as int, cy as int, y as int, cx - 1, best),
            decreases cy + 2 - y,
        {
            let mut x: i64 = cx - 1;
            while x < cx + 2
                invariant
                    cx == tile_of_block(self.origin.x as int, wpos.x as int),
                    cy == tile_of_block(self.origin.y as int, wpos.y as int),
                    i32::MIN <= cx <= i32::MAX,
                    i32::MIN <= cy <= i32::MAX,
                    cy - 1 <= y < cy + 2,
                    cx - 1 <= x <= cx + 2,
                    self.is_warp_among(wpos, cx as int, cy as int, y as int, x as int, best),
                decreases cx + 2 - x,
            {
                if !self.tiles.get_xy(x, y).is_natural() {
                    let d2 = self.tile_distance_squared(x, y, wpos);
                    proof {
                        self.lemma_near_tile_distance(wpos, x as int, y as int);
                    }
                    assert(self.is_built_near(cx as int, cy as int, x as int, y as int));
                    let nearer = match best {
                        Some(least) => d2 < least as i128,
                        None => true,
                    };
                    if nearer {
                        best = Some(d2 as i32);
                    }
                }
                x = x + 1;
            }
            y = y + 1;
        }
        best
    }

    /// Whether `best` is the least square of a distance from `wpos` to a tile that is not left to
    /// nature, among the tiles around `(cx, cy)`.
    pub open spec fn is_warp(self, wpos: Vec2, cx: int, cy: int, best: Option<i32>) -> bool {
        match best {
            Some(d) => {
                &&& exists|x: int, y: int| #[trigger]
                    self.is_built_near(cx, cy, x, y) && d == distance_to_tile_squared(
                        self.origin,
                        x,
                        y,
                        wpos,
                    )
                &&& forall|x: int, y: int| #[trigger]
                    self.is_built_near(cx, cy, x, y) ==> d <= distance_to_tile_squared(
                        self.origin,
                        x,
                        y,
                        wpos,
                    )
            },
            None => forall|x: int, y: int| !(#[trigger] self.is_built_near(cx, cy, x, y)),
        }
    }

    /// [`is_warp`](Site::is_warp) of the tiles before row `row`, and before column `col` in it.
    spec fn is_warp_among(
        self,
        wpos: Vec2,
        cx: int,
        cy: int,
        row: int,
        col: int,
        best: Option<i32>,
    ) -> bool {
        match best {
            Some(d) => {
                &&& exists|x: int, y: int| #[trigger]
                    self.is_built_near(cx, cy, x, y) && d == distance_to_tile_squared(
                        self.origin,
                        x,
                        y,
                        wpos,
                    )
                &&& forall|x: int, y: int| #[trigger]
                    self.is_built_near(cx, cy, x, y) && (y < row || y == row && x < col) ==> d
                        <= distance_to_tile_squared(self.origin, x, y, wpos)
            },
            None => forall|x: int, y: int| #[trigger]
                self.is_built_near(cx, cy, x, y) ==> !(y < row || y == row && x < col),
        }
    }

    /// A position is less than two tiles from the tiles around the one that it lies in.
    proof fn lemma_near_tile_distance(self, wpos: Vec2, x: int, y: int)
        requires
            -1 <= x - tile_of_block(self.origin.x as int, wpos.x as int) <= 1,
            -1 <= y - tile_of_block(self.origin.y as int, wpos.y as int) <= 1,
        ensures
            0 <= distance_to_tile_squared(self.origin, x, y, wpos) <= 288,
    {
        let bx = self.origin.x + x * 6;
        let by = self.origin.y + y * 6;
        let dx = clamp_int(wpos.x as int, bx, bx + 5) - wpos.x;
        let dy = clamp_int(wpos.y as int, by, by + 5) - wpos.y;
        assert(0 <= dx * dx + dy * dy <= 288) by (nonlinear_arith)
            requires
                -12 <= dx <= 12,
                -12 <= dy <= 12,
        ;
    }

    /// Whether `rules` are what the tiles of the site let happen at a position.
    pub open spec fn is_spawn_rules(self, wpos: Vec2, rules: SpawnRules) -> bool {
        &&& self.is_warp(
            wpos,
            tile_of_block(self.origin.x as int, wpos.x as int),
            tile_of_block(self.origin.y as int, wpos.y as int),
            rules.warp_squared,
        )
        &&& rules.trees == (rules.warp_squared is None || rules.warp_squared == Some(36i32))
        &&& rules.paths == (rules.warp_squared != Some(0i32))
        &&& rules.waypoints
    }

    /// What the tiles of the site let happen at a position. Trees grow where the ground warps
    /// fully, paths run where it warps at all.
    pub fn spawn_rules(&self, wpos: Vec2) -> (r: SpawnRules)
        ensures
            self.is_spawn_rules(wpos, r),
    {
        let warp_squared = self.warp_squared(wpos);
        let (trees, paths) = match warp_squared {
            Some(d) => (d == 36, d != 0),
            None => (true, true),
        };
        SpawnRules { trees, warp_squared, paths, waypoints: true }
    }

    /// The plots whose own rules are combined with those of the tiles, in order.
    pub fn plots_with_spawn_rules(&self) -> (r: Vec<Id>)
        ensures
            is_listing(
                r@,
                self.plots@.len(),
                |i: int| self.plots@[i].kind.spec_has_spawn_rules(),
            ),
    {
        let mut mask: Vec<bool> = Vec::new();
        let mut i: usize = 0;
        while i < self.plots.len()
            invariant
                i <= self.plots@.len(),
                mask@.len() == i,
                forall|j: int|
                    0 <= j < i ==> (#[trigger] mask@[j])
                        == self.plots@[j].kind.spec_has_spawn_rules(),
            decreases self.plots@.len() - i,
        {
            mask.push(self.plots[i].kind.has_spawn_rules());
            i = i + 1;
        }
        let ids = ids_of_mask(&mask);
        proof {
            lemma_listing(ids@, mask@, |i: int| self.plots@[i].kind.spec_has_spawn_rules());
        }
        ids
    }

    /// The plots that add to what a chunk holds, in the order in which they do.
    pub fn apply_supplement(&self) -> (r: Vec<Id>)
        ensures
            is_listing(
                r@,
                self.plots@.len(),
                |i: int| self.plots@[i].kind.spec_has_supplement(),
            ),
    {
        let mut mask: Vec<bool> = Vec::new();
        let mut i: usize = 0;
        while i < self.plots.len()
            invariant
                i <= self.plots@.len(),
                mask@.len() == i,
                forall|j: int|
                    0 <= j < i ==> (#[trigger] mask@[j]) == self.plots@[j].kind.spec_has_supplement(),
            decreases self.plots@.len() - i,
        {
            mask.push(self.plots[i].kind.has_supplement());
            i = i + 1;
        }
        let ids = ids_of_mask(&mask);
        proof {
            lemma_listing(ids@, mask@, |i: int| self.plots@[i].kind.spec_has_supplement());
        }
        ids
    }

    /// Whether `r` says how hard the hardest dungeon is, or that there is none.
    pub open spec fn is_hardest_dungeon(self, r: Option<u32>) -> bool {
        match r {
            None => forall|i: int|
                0 <= i < self.plots@.len() ==> !((#[trigger] self.plots@[i]).kind is Dungeon),
            Some(d) => {
                &&& exists|i: int|
                    0 <= i < self.plots@.len() && (#[trigger] self.plots@[i]).kind is Dungeon && d
                        == self.plots@[i].kind->difficulty
                &&& forall|i: int|
                    0 <= i < self.plots@.len() && (#[trigger] self.plots@[i]).kind is Dungeon
                        ==> self.plots@[i].kind->difficulty <= d
            },
        }
    }

    /// How hard the hardest dungeon is, if there is any.
    pub fn dungeon_difficulty(&self) -> (r: Option<u32>)
        ensures
            self.is_hardest_dungeon(r),
    {
        let mut best: Option<u32> = None;
        let mut i: usize = 0;
        while i < self.plots.len()
            invariant
                i <= self.plots@.len(),
                best is None <==> forall|j: int|
                    0 <= j < i ==> !((#[trigger] self.plots@[j]).kind is Dungeon),
                best matches Some(d) ==> {
                    &&& exists|j: int|
                        0 <= j < i && (#[trigger] self.plots@[j]).kind is Dungeon && d
                            == self.plots@[j].kind->difficulty
                    &&& forall|j: int|
                        0 <= j < i && (#[trigger] self.plots@[j]).kind is Dungeon
                            ==> self.plots@[j].kind->difficulty <= d
                },
            decreases self.plots@.len() - i,
        {
            if let PlotKind::Dungeon { difficulty } = &self.plots[i].kind {
                let harder = match best {
                    Some(d) => *difficulty > d,
                    None => true,
                };
                assert(self.plots@[i as int].kind is Dungeon);
                if harder {
                    best = Some(*difficulty);
                }
            }
            i = i + 1;
        }
        best
    }
}

/// The positions of a mask that are set, in order.
pub(crate) fn ids_of_mask(mask: &Vec<bool>) -> (r: Vec<Id>)
    ensures
        is_listing(r@, mask@.len(), |i: int| mask@[i]),
{
    let mut ids: Vec<Id> = Vec::new();
    let mut i: usize = 0;
    while i < mask.len()
        invariant
            i <= mask@.len(),
            forall|a: int, b: int| 0 <= a < b < ids@.len() ==> (#[trigger] ids@[a]).idx < (
            #[trigger] ids@[b]).idx,
            forall|a: int|
                0 <= a < ids@.len() ==> (#[trigger] ids@[a]).idx < i && mask@[ids@[a].idx as int],
            forall|k: int|
                0 <= k < i && #[trigger] mask@[k] ==> ids@.contains(Id { idx: k as usize }),
        decreases mask@.len() - i,
    {
        if mask[i] {
            let ghost prior = ids@;
            ids.push(Id { idx: i });
            proof {
                assert forall|k: int| 0 <= k < i + 1 && #[trigger] mask@[k] implies ids@.contains(
                    Id { idx: k as usize },
                ) by {
                    if k < i {
                        let a = prior.index_of(Id { idx: k as usize });
                        assert(prior.contains(Id { idx: k as usize }));
                        assert(ids@[a] == prior[a]);
                    } else {
                        assert(ids@[ids@.len() - 1] == Id { idx: k as usize });
                    }
                }
            }
        }
        i = i + 1;
    }
    ids
}

/// A listing of the positions of a mask that are set lists what the mask stands for.
pub(crate) proof fn lemma_listing(ids: Seq<Id>, mask: Seq<bool>, wanted: spec_fn(int) -> bool)
    requires
        is_listing(ids, mask.len(), |i: int| mask[i]),
        forall|j: int| 0 <= j < mask.len() ==> (#[trigger] mask[j]) == wanted(j),
    ensures
        is_listing(ids, mask.len(), wanted),
{
    let set = |i: int| mask[i];
    assert forall|k: int| 0 <= k < mask.len() && #[trigger] wanted(k) implies ids.contains(
        Id { idx: k as usize },
    ) by {
        assert(mask[k]);
        assert(set(k));
    }
    assert forall|i: int| 0 <= i < ids.len() implies (#[trigger] ids[i]).idx < mask.len()
        && wanted(ids[i].idx as int) by {
        assert(set(ids[i].idx as int));
        assert(mask[ids[i].idx as int]);
    }
}

} // verus!
