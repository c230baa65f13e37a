//! What holds of how a site shows in the world.

use crate::coords::{block_of_tile, tile_of_block};
use crate::geom::Vec2;
use crate::plot::PlotKind;
use crate::render::{
    as_seq, is_surface, is_top, is_underground, plaza_edit, road_edit, BlockClass, BlockEdit,
    FIELD_LEVELS, PLAZA_LEVELS, ROAD_LEVELS,
};
use crate::site::Site;
use crate::tile::TileKind;
use vstd::prelude::*;

verus! {

/// A plaza or path tile is paved whenever a tile one step away along either axis is just the same.
pub proof fn law_paving_joins_equal_tiles(site: Site, x: int, y: int, dx: int, dy: int)
    requires
        dx == 0 && (dy == 1 || dy == -1) || dy == 0 && (dx == 1 || dx == -1),
        site.tiles.at(x, y).kind == TileKind::Plaza || site.tiles.at(x, y).kind == TileKind::Path,
        site.tiles.at(x + dx, y + dy) == site.tiles.at(x, y),
    ensures
        site.is_paved(x, y),
        site.is_paved(x + dx, y + dy),
{
    let u = x + dx;
    let v = y + dy;
    assert(u - dx == x && v - dy == y);
    if dx == 1 {
        assert(site.tiles.at(u - 1, v) == site.tiles.at(x, y));
    } else if dx == -1 {
        assert(site.tiles.at(u + 1, v) == site.tiles.at(x, y));
    } else if dy == 1 {
        assert(site.tiles.at(u, v - 1) == site.tiles.at(x, y));
    } else {
        assert(site.tiles.at(u, v + 1) == site.tiles.at(x, y));
    }
}

/// A tile that is paved is a plaza or a path, and a tile one step away is just the same.
pub proof fn law_paving_is_never_alone(site: Site, x: int, y: int)
    requires
        site.is_paved(x, y),
    ensures
        site.tiles.at(x, y).kind == TileKind::Plaza || site.tiles.at(x, y).kind == TileKind::Path,
        exists|u: int, v: int|
            (u - x == 0 && (v - y == 1 || v - y == -1) || v - y == 0 && (u - x == 1 || u - x == -1))
                && #[trigger] site.tiles.at(u, v) == site.tiles.at(x, y),
{
    let tile = site.tiles.at(x, y);
    if site.tiles.at(x, y + 1) == tile {
    } else if site.tiles.at(x + 1, y) == tile {
    } else if site.tiles.at(x, y - 1) == tile {
    } else {
        assert(site.tiles.at(x - 1, y) == tile);
    }
}

/// The box of a tile reaches from its corner to that of the next tile. A column in it has no
/// distance from it; one beside it is as far away as from its nearest side.
pub proof fn law_boxes_reach_to_the_next_tile(site: Site, tpos: Vec2, x: int, y: int)
    ensures
        ({
            let bx = site.origin.x + 6 * tpos.x;
            let by = site.origin.y + 6 * tpos.y;
            let d = site.distance_to_box_squared(tpos, x, y);
            &&& bx <= x <= bx + 6 && by <= y <= by + 6 ==> d == 0
            &&& x > bx + 6 && by <= y <= by + 6 ==> d == (x - bx - 6) * (x - bx - 6)
            &&& x < bx && by <= y <= by + 6 ==> d == (bx - x) * (bx - x)
            &&& bx <= x <= bx + 6 && y > by + 6 ==> d == (y - by - 6) * (y - by - 6)
            &&& bx <= x <= bx + 6 && y < by ==> d == (by - y) * (by - y)
            &&& x < bx && y < by ==> d == (bx - x) * (bx - x) + (by - y) * (by - y)
            &&& x > bx + 6 && y < by ==> d == (x - bx - 6) * (x - bx - 6) + (by - y) * (by - y)
            &&& x < bx && y > by + 6 ==> d == (bx - x) * (bx - x) + (y - by - 6) * (y - by - 6)
            &&& x > bx + 6 && y > by + 6 ==> d == (x - bx - 6) * (x - bx - 6) + (y - by - 6) * (y
                - by - 6)
        }),
{
    let a = x - (site.origin.x + 6 * tpos.x) - 6;
    let b = y - (site.origin.y + 6 * tpos.y) - 6;
    assert((-a) * (-a) == a * a && (-b) * (-b) == b * b && 0 * 0 == 0) by (nonlinear_arith);
}

/// A stretch of road shows on each road tile of a road, from the node that the tile names first to
/// the one that it names second, as wide as the tile says and at its altitude.
pub proof fn law_road_tiles_show_their_stretch(site: Site, x: int, y: int)
    ensures
        ({
            let tile = site.tiles.at(x, y);
            let r = site.segment_at(x, y);
            let is_road = tile.kind is Road && tile.plot is Some && site.plots@[(
            tile.plot->0).idx as int].kind is Road;
            &&& r is Some <==> is_road
            &&& is_road ==> {
                let path = site.plots@[(tile.plot->0).idx as int].kind->Road_0@;
                &&& (r->0).start == path[tile.kind->a as int]
                &&& (r->0).end == path[tile.kind->b as int]
                &&& (r->0).w == tile.kind->w
                &&& (r->0).hard_alt == tile.hard_alt
            }
        }),
{
}

/// Nothing is no sequence of items, and one item is a sequence of one.
pub proof fn law_items_as_sequences<T>(item: T)
    ensures
        as_seq::<T>(None).len() == 0,
        as_seq(Some(item)).len() == 1,
        as_seq(Some(item))[0] == item,
{
}

/// Street lamps stand on the corners of tiles only: on that of tile `(x, y)` exactly if both `x`
/// and half of `y`, and `y` and half of `x`, are even together, with halves rounded to the side of
/// zero.
pub proof fn law_lamps_stand_on_corners(site: Site, wpos: Vec2, x: int, y: int, hx: int, hy: int)
    requires
        wpos.x == site.origin.x + 6 * x,
        wpos.y == site.origin.y + 6 * y,
        x >= 0 ==> 0 <= x - 2 * hx <= 1,
        x <= 0 ==> -1 <= x - 2 * hx <= 0,
        y >= 0 ==> 0 <= y - 2 * hy <= 1,
        y <= 0 ==> -1 <= y - 2 * hy <= 0,
    ensures
        site.spec_is_lamp_post(wpos) <==> (exists|k: int| x + hy == #[trigger] twice(k)) && (exists|
            k: int,
        | y + hx == #[trigger] twice(k)),
{
    let a = x + hy;
    let b = y + hx;
    assert(tile_of_block(site.origin.x as int, wpos.x as int) == x);
    assert(tile_of_block(site.origin.y as int, wpos.y as int) == y);
    assert(block_of_tile(site.origin.x as int, x) == wpos.x);
    assert(block_of_tile(site.origin.y as int, y) == wpos.y);
    if a % 2 == 0 {
        assert(a == twice(a / 2));
    }
    if b % 2 == 0 {
        assert(b == twice(b / 2));
    }
}

/// Twice a number.
pub open spec fn twice(k: int) -> int {
    2 * k
}

/// No street lamp stands off the corner of its tile.
pub proof fn law_no_lamps_off_corners(site: Site, wpos: Vec2, x: int, y: int)
    requires
        site.origin.x + 6 * x <= wpos.x < site.origin.x + 6 * x + 6,
        site.origin.y + 6 * y <= wpos.y < site.origin.y + 6 * y + 6,
        site.spec_is_lamp_post(wpos),
    ensures
        wpos.x == site.origin.x + 6 * x,
        wpos.y == site.origin.y + 6 * y,
{
    assert(tile_of_block(site.origin.x as int, wpos.x as int) == x);
    assert(tile_of_block(site.origin.y as int, wpos.y as int) == y);
}

/// The tiles that can show in a chunk are those of which a block lies within a tile below and to
/// the left of it, or within two blocks and two tiles above and to the right.
pub proof fn law_shown_tiles_are_around_the_chunk(site: Site, chunk: Vec2, x: int, y: int)
    ensures
        site.shown_tiles(chunk).holds(x, y) <==> {
            &&& site.origin.x + 6 * (x + 1) + 5 >= chunk.x
            &&& site.origin.x + 6 * (x - 2) <= chunk.x + 34
            &&& site.origin.y + 6 * (y + 1) + 5 >= chunk.y
            &&& site.origin.y + 6 * (y - 2) <= chunk.y + 34
        },
{
}

/// A plot other than a plaza or a road shows in a chunk if one of its tiles can, and a giant tree
/// shows everywhere.
pub proof fn law_plots_show_by_their_tiles(site: Site, chunk: Vec2, i: int, x: int, y: int)
    requires
        0 <= i < site.plots@.len(),
    ensures
        site.plots@[i].kind is Plaza || site.plots@[i].kind is Road ==> !site.shows(chunk, i),
        site.plots@[i].kind == PlotKind::GiantTree ==> site.shows(chunk, i),
        !(site.plots@[i].kind is Plaza || site.plots@[i].kind is Road) && site.shown_tiles(
            chunk,
        ).holds(x, y) && site.tiles.at(x, y).plot is Some && (site.tiles.at(x, y).plot->0).idx == i
            ==> site.shows(chunk, i),
{
    if site.shown_tiles(chunk).holds(x, y) && site.tiles.at(x, y).plot is Some && (site.tiles.at(
        x,
        y,
    ).plot->0).idx == i {
        assert(site.shows_tile(chunk, i, x, y));
    }
}

/// A plot that shows in a chunk, unless it is a giant tree, has a tile that can show there.
pub proof fn law_shown_plots_have_a_tile(site: Site, chunk: Vec2, i: int)
    requires
        site.shows(chunk, i),
        !(site.plots@[i].kind is GiantTree),
    ensures
        exists|x: int, y: int|
            {
                let there = #[trigger] site.tiles.at(x, y);
                site.shown_tiles(chunk).holds(x, y) && there.plot is Some && (there.plot->0).idx
                    == i
            },
        !(site.plots@[i].kind is Plaza || site.plots@[i].kind is Road),
{
    let (x, y) = choose|x: int, y: int| site.shows_tile(chunk, i, x, y);
    assert(site.tiles.at(x, y).plot is Some);
}

/// Every kind of plot has a structure but plazas and roads.
pub proof fn law_plazas_and_roads_have_no_structure(kind: PlotKind)
    ensures
        kind.spec_has_structure() <==> !(kind is Plaza) && !(kind is Road),
{
}

/// Ground becomes earth, what else is solid stays, and everything above it is cleared, on plazas as
/// on roads.
pub proof fn law_beds_are_earth(class: BlockClass, underground: bool, lamp_post: bool)
    ensures
        class is Terrain ==> plaza_edit(class) == BlockEdit::Earth && road_edit(
            class,
            underground,
            lamp_post,
        ) == BlockEdit::Earth,
        class is Solid ==> plaza_edit(class) == BlockEdit::Keep && road_edit(
            class,
            underground,
            lamp_post,
        ) == BlockEdit::Keep,
        class is Snow || class is Open ==> plaza_edit(class) == BlockEdit::Vacate && road_edit(
            class,
            underground,
            lamp_post,
        ) is VacateWith,
        class is Snow || class is Open ==> (road_edit(class, underground, lamp_post)->lamp
            <==> underground && lamp_post),
        is_surface(class) <==> class is Snow || class is Open,
{
}

/// The levels, from the surface on, of the beds of roads, plazas and fields.
pub proof fn law_levels_of_beds()
    ensures
        ROAD_LEVELS.0 == -6,
        ROAD_LEVELS.1 == 4,
        PLAZA_LEVELS.0 == -8,
        PLAZA_LEVELS.1 == 6,
        FIELD_LEVELS.0 == -4,
        FIELD_LEVELS.1 == 5,
{
}

/// One is underground up to the first block of snow or air, and from then on never again.
pub proof fn law_surface_is_left_once(classes: Seq<BlockClass>, m: int, n: int)
    requires
        0 <= m <= n,
    ensures
        is_underground(classes, 0),
        is_underground(classes, n) ==> is_underground(classes, m),
        m < n && (classes[m] is Snow || classes[m] is Open) ==> !is_underground(classes, n),
        (forall|i: int|
            0 <= i < n ==> (#[trigger] classes[i]) is Terrain || classes[i] is Solid)
            ==> is_underground(classes, n),
{
    if m < n && (classes[m] is Snow || classes[m] is Open) {
        assert(is_surface(classes[m]));
    }
}

/// Something can be put on a level if the block below is set and the level is not, or above all
/// levels if the last is set.
pub proof fn law_tops_are_above_set_blocks<B>(samples: Seq<Option<B>>, level: int)
    ensures
        is_top(samples, level) ==> 1 <= level <= samples.len(),
        1 <= level < samples.len() ==> (is_top(samples, level) <==> samples[level - 1] is Some
            && samples[level] is None),
        samples.len() > 0 ==> (is_top(samples, samples.len() as int) <==> samples[samples.len()
            - 1] is Some),
{
}

} // verus!
