//! What of a site shows in a chunk of the world, and how blocks change for it.

use crate::bridge::CHUNK_SIZE;
use crate::coords::{block_of_tile, tile_coord, tile_of_block};
use crate::geom::{clamp_int, fits, half_toward_zero, max_int, min_int, Aabr, Vec2};
use crate::plot::{Id, PlotKind};
use crate::rules::{ids_of_mask, is_listing, lemma_listing};
use crate::site::{tile_ok, Site};
use crate::tile::{TileKind, TILE_SIZE};
use vstd::prelude::*;

verus! {

/// A stretch of road next to a position: the tiles that it leads from and to, its width, and the
/// altitude that it is held at.
#[derive(Clone, Copy, PartialEq, Eq, Structural, Debug)]
pub struct RoadSegment {
    pub start: Vec2,
    pub end: Vec2,
    pub w: u16,
    pub hard_alt: Option<i32>,
}

/// What a block is, as far as paving goes.
#[derive(Clone, Copy, PartialEq, Eq, Structural, Debug)]
pub enum BlockClass {
    Snow,
    /// Filled by the ground.
    Terrain,
    /// Filled by something else.
    Solid,
    /// Not filled.
    Open,
}

/// What happens to a block.
#[derive(Clone, Copy, PartialEq, Eq, Structural, Debug)]
pub enum BlockEdit {
    Keep,
    /// It becomes earth, in the colour of the ground below.
    Earth,
    /// It is emptied.
    Vacate,
    /// It is emptied and holds a street lamp, or nothing.
    VacateWith { lamp: bool },
}

/// What the surface of a field is made of.
#[derive(Clone, Copy, PartialEq, Eq, Structural, Debug)]
pub enum BlockKind {
    Grass,
    Earth,
    Sand,
    Snow,
    Rock,
    Other,
}

/// What of a site shows in a chunk.
#[derive(Debug)]
pub struct RenderPlan {
    /// The tiles that can show, those of the chunk and those around it.
    pub tiles: Aabr,
    /// The plots that show, without roads and plazas, in the order of their numbers.
    pub plots: Vec<Id>,
}

/// The lowest and one past the highest level of a road bed, from the surface.
pub const ROAD_LEVELS: (i32, i32) = (-6, 4);

/// The lowest and one past the highest level of a plaza's bed, from the surface.
pub const PLAZA_LEVELS: (i32, i32) = (-8, 6);

/// The lowest and one past the highest level of a field's bed, from the surface.
pub const FIELD_LEVELS: (i32, i32) = (-4, 5);

/// What happens to a block of a plaza or a path.
pub open spec fn plaza_edit(class: BlockClass) -> BlockEdit {
    match class {
        BlockClass::Snow => BlockEdit::Vacate,
        BlockClass::Terrain => BlockEdit::Earth,
        BlockClass::Solid => BlockEdit::Keep,
        BlockClass::Open => BlockEdit::Vacate,
    }
}

pub fn plaza_block(class: BlockClass) -> (r: BlockEdit)
    ensures
        r == plaza_edit(class),
{
    match class {
        BlockClass::Snow => BlockEdit::Vacate,
        BlockClass::Terrain => BlockEdit::Earth,
        BlockClass::Solid => BlockEdit::Keep,
        BlockClass::Open => BlockEdit::Vacate,
    }
}

/// Whether a block lets one out of the ground.
pub open spec fn is_surface(class: BlockClass) -> bool {
    class is Snow || class is Open
}

/// What happens to a block of a road bed. The first block from below that lets one out of the
/// ground holds a lamp, if this is a place for one.
pub open spec fn road_edit(class: BlockClass, underground: bool, lamp_post: bool) -> BlockEdit {
    match class {
        BlockClass::Terrain => BlockEdit::Earth,
        BlockClass::Solid => BlockEdit::Keep,
        _ => BlockEdit::VacateWith { lamp: underground && lamp_post },
    }
}

/// Changes a block of a road bed, from below. `underground` says whether no block so far has let
/// one out of the ground; the second result says so for the next block.
pub fn road_block(class: BlockClass, underground: bool, lamp_post: bool) -> (r: (BlockEdit, bool))
    ensures
        r.0 == road_edit(class, underground, lamp_post),
        r.1 == (underground && !is_surface(class)),
{
    match class {
        BlockClass::Terrain => (BlockEdit::Earth, underground),
        BlockClass::Solid => (BlockEdit::Keep, underground),
        BlockClass::Snow | BlockClass::Open => (
            BlockEdit::VacateWith { lamp: underground && lamp_post },
            false,
        ),
    }
}

/// Whether the first `n` blocks of a column, from below, are all underground.
pub open spec fn is_underground(classes: Seq<BlockClass>, n: int) -> bool {
    forall|i: int| 0 <= i < n ==> !is_surface(#[trigger] classes[i])
}

/// Changes a column of a road bed, from below.
pub fn road_column(classes: &Vec<BlockClass>, lamp_post: bool) -> (r: Vec<BlockEdit>)
    ensures
        r@.len() == classes@.len(),
        forall|i: int|
            0 <= i < r@.len() ==> (#[trigger] r@[i]) == road_edit(
                classes@[i],
                is_underground(classes@, i),
                lamp_post,
            ),
{
    let mut edits: Vec<BlockEdit> = Vec::new();
    let mut underground = true;
    let mut i: usize = 0;
    while i < classes.len()
        invariant
            i <= classes@.len(),
            edits@.len() == i,
            underground == is_underground(classes@, i as int),
            forall|j: int|
                0 <= j < i ==> (#[trigger] edits@[j]) == road_edit(
                    classes@[j],
                    is_underground(classes@, j),
                    lamp_post,
                ),
        decreases classes@.len() - i,
    {
        let (edit, next) = road_block(classes[i], underground, lamp_post);
        edits.push(edit);
        proof {
            if next {
                assert forall|j: int| 0 <= j < i + 1 implies !is_surface(
                    #[trigger] classes@[j],
                ) by {}
            } else if underground {
                assert(is_surface(classes@[i as int]));
            }
        }
        underground = next;
        i = i + 1;
    }
    edits
}

/// Whether a field changes a block of that kind; it only clears others of what grows on them.
pub fn is_field_soil(kind: BlockKind) -> (r: bool)
    ensures
        r == !(kind is Other),
{
    match kind {
        BlockKind::Grass | BlockKind::Earth | BlockKind::Sand | BlockKind::Snow
        | BlockKind::Rock => true,
        BlockKind::Other => false,
    }
}

/// Whether a column of one plot gives way to what stands there: this is so if both reach a known
/// height and what stands there reaches higher.
pub fn is_column_hidden(there: Option<i32>, plot: Option<i32>) -> (r: bool)
    ensures
        r == (there is Some && plot is Some && there->0 > plot->0),
{
    match (there, plot) {
        (Some(a), Some(b)) => a > b,
        _ => false,
    }
}

/// The part of an area that lies in a chunk.
pub fn clip_to_chunk(area: Aabr, chunk: Aabr) -> (r: Aabr)
    ensures
        r.min.x == max_int(area.min.x as int, chunk.min.x as int),
        r.min.y == max_int(area.min.y as int, chunk.min.y as int),
        r.max.x == min_int(area.max.x as int, chunk.max.x as int),
        r.max.y == min_int(area.max.y as int, chunk.max.y as int),
        forall|x: int, y: int| #[trigger]
            r.holds(x, y) <==> area.holds(x, y) && chunk.holds(x, y),
{
    Aabr {
        min: Vec2 {
            x: if area.min.x >= chunk.min.x {
                area.min.x
            } else {
                chunk.min.x
            },
            y: if area.min.y >= chunk.min.y {
                area.min.y
            } else {
                chunk.min.y
            },
        },
        max: Vec2 {
            x: if area.max.x <= chunk.max.x {
                area.max.x
            } else {
                chunk.max.x
            },
            y: if area.max.y <= chunk.max.y {
                area.max.y
            } else {
                chunk.max.y
            },
        },
    }
}

/// Follows the blocks that a plot sets in a column, from below, to find those with nothing of the
/// plot on top.
#[derive(Debug)]
pub struct ColumnTrace<B> {
    /// The block set last, unless something was left out since.
    pub last: Option<B>,
}

impl<B: Copy> ColumnTrace<B> {
    pub fn new() -> (r: Self)
        ensures
            r.last is None,
    {
        ColumnTrace { last: None }
    }

    /// Takes what the plot sets next, if anything. Gives the block below if that is now known to
    /// have nothing on top.
    pub fn step(&mut self, current: Option<B>) -> (r: Option<B>)
        ensures
            r == if current is None {
                old(self).last
            } else {
                None
            },
            final(self).last == current,
    {
        let below = match current {
            Some(_) => None,
            None => self.last,
        };
        self.last = current;
        below
    }

    /// Gives the last block if nothing was left out above it.
    pub fn finish(self) -> (r: Option<B>)
        ensures
            r == self.last,
    {
        self.last
    }
}

/// The blocks of a column on which something can be put: those that a plot sets with nothing of
/// the plot on top, and the level above each, counted from the lowest.
pub fn column_tops<B: Copy>(samples: &Vec<Option<B>>) -> (r: Vec<(usize, B)>)
    ensures
        forall|k: int|
            0 <= k < r@.len() ==> {
                let level = (#[trigger] r@[k]).0;
                &&& is_top(samples@, level as int)
                &&& samples@[level - 1] == Some(r@[k].1)
            },
        forall|i: int, j: int|
            0 <= i < j < r@.len() ==> (#[trigger] r@[i]).0 < (#[trigger] r@[j]).0,
        forall|level: int| #[trigger]
            is_top(samples@, level) ==> exists|k: int|
                0 <= k < r@.len() && (#[trigger] r@[k]).0 == level,
{
    let mut tops: Vec<(usize, B)> = Vec::new();
    let mut trace: ColumnTrace<B> = ColumnTrace::new();
    let mut z: usize = 0;
    while z < samples.len()
        invariant
            z <= samples@.len(),
            trace.last == if z == 0 {
                None
            } else {
                samples@[z - 1]
            },
            forall|k: int|
                0 <= k < tops@.len() ==> {
                    let level = (#[trigger] tops@[k]).0;
                    &&& level < z
                    &&& is_top(samples@, level as int)
                    &&& samples@[level - 1] == Some(tops@[k].1)
                },
            forall|i: int, j: int|
                0 <= i < j < tops@.len() ==> (#[trigger] tops@[i]).0 < (#[trigger] tops@[j]).0,
            forall|level: int|
                level < z && #[trigger] is_top(samples@, level) ==> exists|k: int|
                    0 <= k < tops@.len() && (#[trigger] tops@[k]).0 == level,
        decreases samples@.len() - z,
    {
        let ghost prior = tops@;
        match trace.step(samples[z]) {
            Some(block) => {
                tops.push((z, block));
                assert(tops@[prior.len() as int].0 == z);
            },
            None => {},
        }
        proof {
            assert forall|level: int|
                level < z + 1 && #[trigger] is_top(samples@, level) implies exists|k: int|
                0 <= k < tops@.len() && (#[trigger] tops@[k]).0 == level by {
                if level < z {
                    let k = choose|k: int| 0 <= k < prior.len() && (#[trigger] prior[k]).0 == level;
                    assert(tops@[k] == prior[k]);
                }
            }
        }
        z = z + 1;
    }
    let ghost prior = tops@;
    match trace.finish() {
        Some(block) => {
            tops.push((z, block));
            assert(tops@[prior.len() as int].0 == z);
        },
        None => {},
    }
    proof {
        assert forall|level: int| #[trigger] is_top(samples@, level) implies exists|k: int|
            0 <= k < tops@.len() && (#[trigger] tops@[k]).0 == level by {
            if level < z {
                let k = choose|k: int| 0 <= k < prior.len() && (#[trigger] prior[k]).0 == level;
                assert(tops@[k] == prior[k]);
            }
        }
    }
    tops
}

/// Whether `level` is just above a block that a plot sets, and holds none itself.
pub open spec fn is_top<B>(samples: Seq<Option<B>>, level: int) -> bool {
    &&& 1 <= level <= samples.len()
    &&& samples[level - 1] is Some
    &&& level < samples.len() ==> samples[level] is None
}

impl PlotKind {
    /// Whether plots of this kind show as more than their tiles.
    pub open spec fn spec_has_structure(self) -> bool {
        !(self is Plaza || self is Road)
    }

    pub fn has_structure(&self) -> (r: bool)
        ensures
            r == self.spec_has_structure(),
    {
        !matches!(self, PlotKind::Plaza | PlotKind::Road(_))
    }

    /// Whether entities can be put on top of plots of this kind.
    pub fn has_entities_on_top(&self) -> (r: bool)
        ensures
            r == (*self is GiantTree),
    {
        matches!(self, PlotKind::GiantTree)
    }
}

/// Nothing or one item, as a sequence.
pub open spec fn as_seq<T>(item: Option<T>) -> Seq<T> {
    match item {
        Some(t) => seq![t],
        None => Seq::empty(),
    }
}

impl Site {
    /// The stretch of road on the tile at `(x, y)`, if there is one.
    pub open spec fn segment_at(self, x: int, y: int) -> Option<RoadSegment> {
        let tile = self.tiles.at(x, y);
        match (tile.kind, tile.plot) {
            (TileKind::Road { a, b, w }, Some(id)) => match self.plot_of(id).kind {
                PlotKind::Road(path) => Some(
                    RoadSegment {
                        start: path@[a as int],
                        end: path@[b as int],
                        w,
                        hard_alt: tile.hard_alt,
                    },
                ),
                _ => None,
            },
            _ => None,
        }
    }

    fn segment(&self, x: i64, y: i64) -> (r: Option<RoadSegment>)
        requires
            self.wf(),
        ensures
            r == self.segment_at(x as int, y as int),
    {
        let tile = self.tiles.get_xy(x, y);
        assert(tile_ok(self.plots@, self.tiles.at(x as int, y as int)));
        match (tile.kind, tile.plot) {
            (TileKind::Road { a, b, w }, Some(id)) => match &self.plots[id.idx].kind {
                PlotKind::Road(path) => Some(
                    RoadSegment {
                        start: path[a as usize],
                        end: path[b as usize],
                        w,
                        hard_alt: tile.hard_alt,
                    },
                ),
                _ => None,
            },
            _ => None,
        }
    }

    /// The stretches of road on the four tiles next to the one that a position lies in.
    pub fn near_roads(&self, wpos2d: Vec2) -> (r: Vec<RoadSegment>)
        requires
            self.wf(),
        ensures
            ({
                let x = tile_of_block(self.origin.x as int, wpos2d.x as int);
                let y = tile_of_block(self.origin.y as int, wpos2d.y as int);
                r@ == as_seq(self.segment_at(x, y + 1)) + as_seq(self.segment_at(x + 1, y))
                    + as_seq(self.segment_at(x, y - 1)) + as_seq(self.segment_at(x - 1, y))
            }),
    {
        let tpos = self.wpos_tile_pos(wpos2d);
        let x: i64 = tpos.x as i64;
        let y: i64 = tpos.y as i64;
        let mut roads: Vec<RoadSegment> = Vec::new();
        if let Some(segment) = self.segment(x, y + 1) {
            roads.push(segment);
        }
        if let Some(segment) = self.segment(x + 1, y) {
            roads.push(segment);
        }
        if let Some(segment) = self.segment(x, y - 1) {
            roads.push(segment);
        }
        if let Some(segment) = self.segment(x - 1, y) {
            roads.push(segment);
        }
        assert(roads@ =~= as_seq(self.segment_at(x as int, y + 1)) + as_seq(
            self.segment_at(x + 1, y as int),
        ) + as_seq(self.segment_at(x as int, y - 1)) + as_seq(self.segment_at(x - 1, y as int)));
        roads
    }

    /// Whether a street lamp can stand at a position: on the corner of some tiles, spread out
    /// over the grid.
    pub open spec fn spec_is_lamp_post(self, wpos2d: Vec2) -> bool {
        let x = tile_of_block(self.origin.x as int, wpos2d.x as int);
        let y = tile_of_block(self.origin.y as int, wpos2d.y as int);
        &&& block_of_tile(self.origin.x as int, x) == wpos2d.x
        &&& block_of_tile(self.origin.y as int, y) == wpos2d.y
        &&& (x + half_toward_zero(y)) % 2 == 0
        &&& (y + half_toward_zero(x)) % 2 == 0
    }

    pub fn is_lamp_post(&self, wpos2d: Vec2) -> (r: bool)
        ensures
            r == self.spec_is_lamp_post(wpos2d),
    {
        let tpos = self.wpos_tile_pos(wpos2d);
        let x: i64 = tpos.x as i64;
        let y: i64 = tpos.y as i64;
        self.origin.x as i64 + x * 6 == wpos2d.x as i64 && self.origin.y as i64 + y * 6
            == wpos2d.y as i64 && (x + y / 2) % 2 == 0 && (y + x / 2) % 2 == 0
    }

    /// The shade of green, out of 255, of the field that a position lies in, if it lies in one. It
    /// varies with the plot.
    pub fn field_green(&self, wpos2d: Vec2) -> (r: Option<u8>)
        requires
            self.wf(),
        ensures
            ({
                let tile = self.tiles.at(
                    tile_of_block(self.origin.x as int, wpos2d.x as int),
                    tile_of_block(self.origin.y as int, wpos2d.y as int),
                );
                r == if tile.kind is Field {
                    Some(
                        (5 + (match tile.plot {
                            Some(id) => self.plot_of(id).seed as int,
                            None => 0,
                        }) % 32) as u8,
                    )
                } else {
                    None
                }
            }),
    {
        let tile = self.wpos_tile(wpos2d);
        assert(tile_ok(self.plots@, tile));
        match tile.kind {
            TileKind::Field => {
                let seed: u32 = match tile.plot {
                    Some(id) => self.plot(id).seed,
                    None => 0,
                };
                Some(5 + (seed % 32) as u8)
            },
            _ => None,
        }
    }

    /// Whether a tile is a plaza or a path and one of its neighbours is just the same.
    pub open spec fn is_paved(self, x: int, y: int) -> bool {
        let tile = self.tiles.at(x, y);
        &&& tile.kind is Plaza || tile.kind is Path
        &&& {
            ||| self.tiles.at(x, y + 1) == tile
            ||| self.tiles.at(x + 1, y) == tile
            ||| self.tiles.at(x, y - 1) == tile
            ||| self.tiles.at(x - 1, y) == tile
        }
    }

    /// The square of the distance from the block column at `(x, y)` to the box of a tile, with
    /// the corner of the next tile as its far corner.
    pub open spec fn distance_to_box_squared(self, tpos: Vec2, x: int, y: int) -> int {
        let bx = block_of_tile(self.origin.x as int, tpos.x as int);
        let by = block_of_tile(self.origin.y as int, tpos.y as int);
        let dx = clamp_int(x, bx, bx + TILE_SIZE) - x;
        let dy = clamp_int(y, by, by + TILE_SIZE) - y;
        dx * dx + dy * dy
    }

    /// Whether the block columns that a tile can pave have representable positions.
    pub open spec fn paving_fits(self, tpos: Vec2) -> bool {
        let bx = block_of_tile(self.origin.x as int, tpos.x as int);
        let by = block_of_tile(self.origin.y as int, tpos.y as int);
        fits(bx - 1) && fits(by - 1) && fits(bx + 8) && fits(by + 8)
    }

    /// The block columns that a tile paves: those within one and a half blocks of its box.
    pub fn render_tile(&self, tpos: Vec2) -> (r: Option<Aabr>)
        requires
            self.is_paved(tpos.x as int, tpos.y as int) ==> self.paving_fits(tpos),
        ensures
            r is Some <==> self.is_paved(tpos.x as int, tpos.y as int),
            forall|x: int, y: int|
                (x - tpos.x == 0 && (y - tpos.y == 1 || y - tpos.y == -1) || y - tpos.y == 0 && (x
                    - tpos.x == 1 || x - tpos.x == -1)) && (#[trigger] self.tiles.at(x, y))
                    == self.tiles.at_pos(tpos) && (self.tiles.at(x, y).kind is Plaza
                    || self.tiles.at(x, y).kind is Path) ==> r is Some,
            r is Some ==> exists|x: int, y: int|
                (x - tpos.x == 0 && (y - tpos.y == 1 || y - tpos.y == -1) || y - tpos.y == 0 && (x
                    - tpos.x == 1 || x - tpos.x == -1)) && (#[trigger] self.tiles.at(x, y))
                    == self.tiles.at_pos(tpos) && (self.tiles.at(x, y).kind is Plaza
                    || self.tiles.at(x, y).kind is Path),
            r matches Some(area) ==> {
                &&& area.min.x == block_of_tile(self.origin.x as int, tpos.x as int) - 1
                &&& area.min.y == block_of_tile(self.origin.y as int, tpos.y as int) - 1
                &&& area.max.x == block_of_tile(self.origin.x as int, tpos.x as int) + 8
                &&& area.max.y == block_of_tile(self.origin.y as int, tpos.y as int) + 8
                &&& forall|x: int, y: int| #[trigger]
                    area.holds(x, y) <==> 4 * self.distance_to_box_squared(tpos, x, y) <= 9
            },
    {
        let tile = self.tiles.get(tpos);
        let x: i64 = tpos.x as i64;
        let y: i64 = tpos.y as i64;
        let is_kind = matches!(tile.kind, TileKind::Plaza | TileKind::Path);
        if is_kind && (self.tiles.get_xy(x, y + 1) == tile || self.tiles.get_xy(x + 1, y) == tile
            || self.tiles.get_xy(x, y - 1) == tile || self.tiles.get_xy(x - 1, y) == tile) {
            let bx: i64 = self.origin.x as i64 + x * 6;
            let by: i64 = self.origin.y as i64 + y * 6;
            let area = Aabr {
                min: Vec2 { x: (bx - 1) as i32, y: (by - 1) as i32 },
                max: Vec2 { x: (bx + 8) as i32, y: (by + 8) as i32 },
            };
            proof {
                assert forall|u: int, v: int| #[trigger]
                    area.holds(u, v) <==> 4 * self.distance_to_box_squared(tpos, u, v) <= 9 by {
                    let dx = clamp_int(u, bx as int, bx + 6) - u;
                    let dy = clamp_int(v, by as int, by + 6) - v;
                    assert(self.distance_to_box_squared(tpos, u, v) == dx * dx + dy * dy);
                    assert(4 * (dx * dx + dy * dy) <= 9 <==> -1 <= dx <= 1 && -1 <= dy <= 1)
                        by (nonlinear_arith);
                }
            }
            Some(area)
        } else {
            None
        }
    }

    /// The tiles that can show in a chunk.
    pub open spec fn shown_tiles(self, chunk: Vec2) -> Aabr {
        let reach = CHUNK_SIZE + 2;
        Aabr {
            min: Vec2 {
                x: (tile_of_block(self.origin.x as int, chunk.x as int) - 1) as i32,
                y: (tile_of_block(self.origin.y as int, chunk.y as int) - 1) as i32,
            },
            max: Vec2 {
                x: (tile_of_block(self.origin.x as int, chunk.x + reach) + 3) as i32,
                y: (tile_of_block(self.origin.y as int, chunk.y + reach) + 3) as i32,
            },
        }
    }

    /// Whether the tile at `(x, y)` belongs to the plot numbered `i` and can show in a chunk.
    pub open spec fn shows_tile(self, chunk: Vec2, i: int, x: int, y: int) -> bool {
        &&& self.shown_tiles(chunk).holds(x, y)
        &&& self.tiles.at(x, y).plot is Some
        &&& (self.tiles.at(x, y).plot->0).idx == i
    }

    /// Whether a plot shows in a chunk as more than its tiles. It does if one of its tiles can
    /// show; giant trees do everywhere.
    pub open spec fn shows(self, chunk: Vec2, i: int) -> bool {
        &&& self.plots@[i].kind.spec_has_structure()
        &&& {
            ||| self.plots@[i].kind is GiantTree
            ||| exists|x: int, y: int| self.shows_tile(chunk, i, x, y)
        }
    }

    /// What of the site shows in the chunk whose corner is at a world position. No plot is listed
    /// twice.
    pub fn render(&self, chunk: Vec2) -> (r: RenderPlan)
        requires
            self.wf(),
        ensures
            r.tiles == self.shown_tiles(chunk),
            is_listing(r.plots@, self.plots@.len(), |i: int| self.shows(chunk, i)),
    {
        let tiles = Aabr {
            min: Vec2 {
                x: tile_coord(self.origin.x, chunk.x as i64) - 1,
                y: tile_coord(self.origin.y, chunk.y as i64) - 1,
            },
            max: Vec2 {
                x: tile_coord(self.origin.x, chunk.x as i64 + 34) + 3,
                y: tile_coord(self.origin.y, chunk.y as i64 + 34) + 3,
            },
        };
        let mut touched: Vec<bool> = Vec::new();
        let mut i: usize = 0;
        while i < self.plots.len()
            invariant
                i <= self.plots@.len(),
                touched@.len() == i,
                forall|k: int| 0 <= k < i ==> !(#[trigger] touched@[k]),
            decreases self.plots@.len() - i,
        {
            touched.push(false);
            i = i + 1;
        }
        let mut y: i32 = tiles.min.y;
        while y < tiles.max.y
            invariant
                self.wf(),
                tiles == self.shown_tiles(chunk),
                touched@.len() == self.plots@.len(),
                tiles.min.y <= y <= tiles.max.y,
                forall|k: int|
                    0 <= k < touched@.len() && #[trigger] touched@[k] ==> exists|u: int, v: int|
                        self.shows_tile(chunk, k, u, v),
                forall|k: int, u: int, v: int| #[trigger]
                    self.shows_tile(chunk, k, u, v) && v < y ==> touched@[k],
            decreases tiles.max.y - y,
        {
            let mut x: i32 = tiles.min.x;
            while x < tiles.max.x
                invariant
                    self.wf(),
                    tiles == self.shown_tiles(chunk),
                    touched@.len() == self.plots@.len(),
                    tiles.min.y <= y < tiles.max.y,
                    tiles.min.x <= x <= tiles.max.x,
                    forall|k: int|
                        0 <= k < touched@.len() && #[trigger] touched@[k] ==> exists|
                            u: int,
                            v: int,
                        |
                            self.shows_tile(chunk, k, u, v),
                    forall|k: int, u: int, v: int| #[trigger]
                        self.shows_tile(chunk, k, u, v) && (v < y || v == y && u < x)
                            ==> touched@[k],
                decreases tiles.max.x - x,
            {
                let tile = self.tiles.get(Vec2 { x, y });
                assert(tile_ok(self.plots@, self.tiles.at(x as int, y as int)));
                if let Some(id) = tile.plot {
                    touched.set(id.idx, true);
                    assert(self.shows_tile(chunk, id.idx as int, x as int, y as int));
                }
                x = x + 1;
            }
            y = y + 1;
        }
        let mut mask: Vec<bool> = Vec::new();
        let mut i: usize = 0;
        while i < self.plots.len()
            invariant
                i <= self.plots@.len(),
                touched@.len() == self.plots@.len(),
                mask@.len() == i,
                tiles == self.shown_tiles(chunk),
                y >= tiles.max.y,
                forall|k: int|
                    0 <= k < touched@.len() && #[trigger] touched@[k] ==> exists|u: int, v: int|
                        self.shows_tile(chunk, k, u, v),
                forall|k: int, u: int, v: int| #[trigger]
                    self.shows_tile(chunk, k, u, v) && v < y ==> touched@[k],
                forall|k: int| 0 <= k < i ==> (#[trigger] mask@[k]) == self.shows(chunk, k),
            decreases self.plots@.len() - i,
        {
            let kind = &self.plots[i].kind;
            let is_tree = matches!(kind, PlotKind::GiantTree);
            mask.push(kind.has_structure() && (is_tree || touched[i]));
            proof {
                assert(touched@[i as int] <==> exists|u: int, v: int|
                    self.shows_tile(chunk, i as int, u, v)) by {
                    if exists|u: int, v: int| self.shows_tile(chunk, i as int, u, v) {
                        let (u, v) = choose|u: int, v: int|
                            self.shows_tile(chunk, i as int, u, v);
                        assert(self.shows_tile(chunk, i as int, u, v) && v < y);
                    }
                }
            }
            i = i + 1;
        }
        let plots = ids_of_mask(&mask);
        proof {
            lemma_listing(plots@, mask@, |i: int| self.shows(chunk, i));
        }
        RenderPlan { tiles, plots }
    }
}

} // verus!
