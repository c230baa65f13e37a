//! What holds of areas, castles, roads, plazas and bridges, tile by tile.

use crate::bridge::{
    across, chunk_middle, span, widening, Approaches, Bridge, BridgePhase, BridgePlan, BridgeShape,
    BRIDGE_ROAD_WIDTH,
};
use crate::castle::{castle_fits, is_castle};
use crate::coords::tile_of_block;
use crate::generate::{is_landmark, is_site_started, landmark_area, sixth_toward_zero};
use crate::geom::{abs_int, clamp_int, half_toward_zero, max_int, min_int, Aabr, Dir, Vec2};
use crate::obstacles::{is_surveyed, TileSurvey};
use crate::plaza::{
    is_far_enough, is_plaza_laid, PLAZA_ATTEMPTS, PLAZA_ROAD_WIDTH, ROADS_PER_PLAZA,
};
use crate::plot::{bounds_of, Id, Plot, PlotKind};
use crate::rng::SiteRng;
use crate::roads::{
    cells_per_node, covers, first_cover, is_road_added, is_road_laid, lemma_first_cover_is_least,
    lemma_first_cover_range, road_fits, road_ground, MAX_ITERS, TURN_COST,
};
use crate::search::{beyond, beyond_fits};
use crate::site::{area_tiles, center_tile, grown, is_blit, is_placed, Site};
use crate::tile::{KeepKind, RoofKind, Tile, TileGrid, TileKind};
use vstd::prelude::*;

verus! {

/// The lesser of two numbers is one of them and above neither, the greater is the other one, and
/// the size of a number is the greater of itself and its opposite.
pub proof fn law_lesser_and_greater(a: int, b: int)
    ensures
        min_int(a, b) <= a,
        min_int(a, b) <= b,
        max_int(a, b) >= a,
        max_int(a, b) >= b,
        min_int(a, b) == a || min_int(a, b) == b,
        min_int(a, b) + max_int(a, b) == a + b,
        abs_int(a) == max_int(a, -a),
{
}

/// A number is brought into a range by the shortest way.
pub proof fn law_ranges_are_reached_the_shortest_way(v: int, lo: int, hi: int, other: int)
    requires
        lo <= other <= hi,
    ensures
        lo <= clamp_int(v, lo, hi) <= hi,
        abs_int(v - clamp_int(v, lo, hi)) <= abs_int(v - other),
{
}

/// Half a number is rounded to the side of zero.
pub proof fn law_halves_are_rounded_toward_zero(a: int)
    ensures
        -1 <= a - 2 * half_toward_zero(a) <= 1,
        abs_int(2 * half_toward_zero(a)) <= abs_int(a),
        half_toward_zero(-a) == -half_toward_zero(a),
{
}

/// A sixth of a number is rounded to the side of zero.
pub proof fn law_sixths_are_rounded_toward_zero(a: int)
    ensures
        -5 <= a - 6 * sixth_toward_zero(a) <= 5,
        abs_int(6 * sixth_toward_zero(a)) <= abs_int(a),
        sixth_toward_zero(-a) == -sixth_toward_zero(a),
{
}

/// An area holds its lower corner and all up to its upper one, which it encloses but does not hold;
/// its middle is halfway, rounded to the side of zero along each axis.
pub proof fn law_areas(area: Aabr, x: int, y: int)
    ensures
        area.holds(x, y) <==> x - area.min.x >= 0 && area.max.x - x >= 1 && y - area.min.y >= 0
            && area.max.y - y >= 1,
        area.encloses(x, y) <==> x - area.min.x >= 0 && area.max.x - x >= 0 && y - area.min.y >= 0
            && area.max.y - y >= 0,
        area.width() + area.min.x == area.max.x,
        area.height() + area.min.y == area.max.y,
        area.is_void() <==> area.min.x >= area.max.x || area.min.y >= area.max.y,
        -1 <= area.min.x + area.max.x - 2 * center_tile(area).x <= 1,
        -1 <= area.min.y + area.max.y - 2 * center_tile(area).y <= 1,
        abs_int(2 * center_tile(area).x) <= abs_int(area.min.x + area.max.x),
        abs_int(2 * center_tile(area).y) <= abs_int(area.min.y + area.max.y),
        area.center_x() == center_tile(area).x,
        area.center_y() == center_tile(area).y,
{
}

/// The distance between two points is the same either way, and by Pythagoras.
pub proof fn law_distances(a: Vec2, b: Vec2, dx: int, dy: int)
    requires
        b.x == a.x + dx,
        b.y == a.y + dy,
    ensures
        a.distance_squared_to(b) == dx * dx + dy * dy,
        b.distance_squared_to(a) == dx * dx + dy * dy,
{
    assert((-dx) * (-dx) == dx * dx && (-dy) * (-dy) == dy * dy) by (nonlinear_arith);
}

/// Every direction is one step along one axis, its opposite is the same step back, and the side of
/// an area in a direction is the one that no other corner lies farther out than.
pub proof fn law_directions(dir: Dir, area: Aabr, other: Vec2)
    ensures
        dir.spec_opposite().step().x == -dir.step().x,
        dir.spec_opposite().step().y == -dir.step().y,
        dir.spec_opposite().spec_opposite() == dir,
        dir == Dir::X <==> dir.step() == (Vec2 { x: 1, y: 0 }),
        dir == Dir::Y <==> dir.step() == (Vec2 { x: 0, y: 1 }),
        dir == Dir::NegX <==> dir.step() == (Vec2 { x: (-1) as i32, y: 0 }),
        dir == Dir::NegY <==> dir.step() == (Vec2 { x: 0, y: (-1) as i32 }),
        dir.step().x == 1 ==> dir.side_point(area, other) == (Vec2 { x: area.max.x, y: other.y }),
        dir.step().x == -1 ==> dir.side_point(area, other) == (Vec2 { x: area.min.x, y: other.y }),
        dir.step().y == 1 ==> dir.side_point(area, other) == (Vec2 { x: other.x, y: area.max.y }),
        dir.step().y == -1 ==> dir.side_point(area, other) == (Vec2 { x: other.x, y: area.min.y }),
{
}

/// The tiles of an area are listed row by row, from its lower corner on.
pub proof fn law_areas_are_listed_row_by_row(area: Aabr, i: int, j: int)
    requires
        0 <= i < area.max.x - area.min.x,
        0 <= j < area.max.y - area.min.y,
    ensures
        ({
            let w = area.max.x - area.min.x;
            let tiles = area_tiles(area);
            &&& tiles.len() == w * (area.max.y - area.min.y)
            &&& 0 <= j * w + i < tiles.len()
            &&& tiles[j * w + i].x == area.min.x + i
            &&& tiles[j * w + i].y == area.min.y + j
        }),
{
    let w = area.max.x - area.min.x;
    let h = area.max.y - area.min.y;
    let k = j * w + i;
    assert(0 <= k < w * h && k % w == i && k / w == j) by (nonlinear_arith)
        requires
            k == j * w + i,
            0 <= i < w,
            0 <= j < h,
    {
        vstd::arithmetic::div_mod::lemma_fundamental_div_mod_converse(k, w, j, i);
    }
}

/// An area without room has no tiles.
pub proof fn law_void_areas_have_no_tiles(area: Aabr)
    requires
        area.max.x <= area.min.x || area.max.y <= area.min.y,
    ensures
        area_tiles(area).len() == 0,
{
}

/// Bounds grow by an area just as far as to enclose each of its tiles.
pub proof fn law_bounds_grow_to_enclose(bounds: Aabr, area: Aabr, x: int, y: int)
    ensures
        area.min.x <= x < area.max.x && area.min.y <= y < area.max.y ==> {
            &&& grown(bounds, area).min.x <= x <= grown(bounds, area).max.x
            &&& grown(bounds, area).min.y <= y <= grown(bounds, area).max.y
        },
        grown(bounds, area).min.x <= bounds.min.x,
        grown(bounds, area).min.y <= bounds.min.y,
        grown(bounds, area).max.x >= bounds.max.x,
        grown(bounds, area).max.y >= bounds.max.y,
        area.max.x <= area.min.x || area.max.y <= area.min.y ==> grown(bounds, area) == bounds,
        grown(bounds, area).min.x == bounds.min.x || grown(bounds, area).min.x == area.min.x,
        grown(bounds, area).min.y == bounds.min.y || grown(bounds, area).min.y == area.min.y,
        grown(bounds, area).max.x == bounds.max.x || grown(bounds, area).max.x == area.max.x - 1,
        grown(bounds, area).max.y == bounds.max.y || grown(bounds, area).max.y == area.max.y - 1,
{
}

/// Covering an area changes each of its tiles that is kept and no other tile.
pub proof fn law_covering_changes_the_area(
    before: TileGrid,
    after: TileGrid,
    area: Aabr,
    tile: Tile,
    x: int,
    y: int,
)
    requires
        is_blit(before, after, area, tile),
    ensures
        area.min.x <= x < area.max.x && area.min.y <= y < area.max.y && -256 <= x < 272 && -256 <= y
            < 272 ==> after.at(x, y) == tile,
        !(area.min.x <= x < area.max.x && area.min.y <= y < area.max.y) ==> after.at(x, y)
            == before.at(x, y),
        after.bounds == grown(before.bounds, area),
{
}

/// What is placed covers its area with tiles that belong to it, becomes the last plot, and leaves
/// the plots before it.
pub proof fn law_placed_plots_own_their_area(
    before: Site,
    after: Site,
    id: Id,
    kind: PlotKind,
    root: Vec2,
    area: Aabr,
    seed: u32,
    cover: TileKind,
    alt: Option<i32>,
    x: int,
    y: int,
)
    requires
        is_placed(before, after, id, kind, root, area, seed, cover, alt),
    ensures
        area.min.x <= x < area.max.x && area.min.y <= y < area.max.y && -256 <= x < 272 && -256 <= y
            < 272 ==> after.tiles.at(x, y).kind == cover && after.tiles.at(x, y).plot == Some(id)
            && after.tiles.at(x, y).hard_alt == alt,
        !(area.min.x <= x < area.max.x && area.min.y <= y < area.max.y) ==> after.tiles.at(x, y)
            == before.tiles.at(x, y),
        id.idx == before.plots@.len(),
        after.plots@.len() == before.plots@.len() + 1,
        after.plots@[before.plots@.len() as int].kind == kind,
        after.plots@[before.plots@.len() as int].root_tile == root,
        after.plots@[before.plots@.len() as int].tiles@ == area_tiles(area),
        after.plots@[before.plots@.len() as int].seed == seed,
        forall|i: int|
            0 <= i < before.plots@.len() ==> (#[trigger] after.plots@[i]) == before.plots@[i],
        after.origin == before.origin,
        after.name == before.name,
{
    assert forall|i: int| 0 <= i < before.plots@.len() implies (#[trigger] after.plots@[i])
        == before.plots@[i] by {
        assert(after.plots@.take(before.plots@.len() as int)[i] == before.plots@[i]);
    }
}

/// In the middle of a castle, whatever its size, stands a keep of four by four tiles. Around it run
/// walls, with a tower at each corner; the rest within the rim is road.
pub proof fn law_castles_have_a_keep(
    before: Site,
    after: Site,
    id: Id,
    area: Aabr,
    offset: int,
    seed: u32,
    alt: i32,
    cx: int,
    cy: int,
    x: int,
    y: int,
)
    requires
        is_castle(before, after, id, area, offset, seed, alt),
        castle_fits(area, offset),
        -1 <= area.min.x + area.max.x - 2 * cx <= 1,
        -1 <= area.min.y + area.max.y - 2 * cy <= 1,
        abs_int(2 * cx) <= abs_int(area.min.x + area.max.x),
        abs_int(2 * cy) <= abs_int(area.min.y + area.max.y),
        -256 <= x < 272,
        -256 <= y < 272,
    ensures
        cx - 2 <= x < cx + 2 && cy - 2 <= y < cy + 2 ==> after.tiles.at(x, y).kind
            == TileKind::Keep(KeepKind::Middle),
        (x == cx - 3 || x == cx + 2) && (y == cy - 3 || y == cy + 2) ==> after.tiles.at(x, y).kind
            == TileKind::Tower(RoofKind::Pyramid),
        (x == cx - 3 || x == cx + 2) && cy - 2 <= y < cy + 2 ==> after.tiles.at(x, y).kind
            == TileKind::Wall(Dir::Y),
        (y == cy - 3 || y == cy + 2) && cx - 2 <= x < cx + 2 ==> after.tiles.at(x, y).kind
            == TileKind::Wall(Dir::Y),
        cx - 3 <= x < cx + 3 && cy - 3 <= y < cy + 3 ==> after.tiles.at(x, y).spec_is_obstacle(),
        area.min.x < x < area.max.x - 1 && area.min.y < y < area.max.y - 1 && !(cx - 3 <= x < cx + 3
            && cy - 3 <= y < cy + 3) ==> after.tiles.at(x, y).kind == (TileKind::Road {
            a: 0,
            b: 0,
            w: 0,
        }),
        after.plots@[before.plots@.len() as int].root_tile.x == cx,
        after.plots@[before.plots@.len() as int].root_tile.y == cy,
{
}

/// A castle's rim has a tower at each corner, and on its lower side a gate of three tiles between
/// two towers, as far from the corner as was asked for. The rest are walls: along x on the lower
/// and upper side, along y on the two others.
pub proof fn law_castles_have_a_gate(
    before: Site,
    after: Site,
    id: Id,
    area: Aabr,
    offset: int,
    seed: u32,
    alt: i32,
    x: int,
    y: int,
)
    requires
        is_castle(before, after, id, area, offset, seed, alt),
        castle_fits(area, offset),
        -256 <= x < 272,
        -256 <= y < 272,
    ensures
        (x == area.min.x || x == area.max.x - 1) && (y == area.min.y || y == area.max.y - 1)
            ==> after.tiles.at(x, y).kind == TileKind::Tower(RoofKind::Parapet),
        y == area.min.y && -1 <= x - area.min.x - offset <= 1 ==> after.tiles.at(x, y).kind
            == TileKind::Gate,
        y == area.min.y && (x - area.min.x - offset == 2 || x - area.min.x - offset == -2)
            ==> after.tiles.at(x, y).kind == TileKind::Tower(RoofKind::Parapet),
        y == area.min.y && area.min.x < x < area.max.x - 1 && !(-2 <= x - area.min.x - offset <= 2)
            ==> after.tiles.at(x, y).kind == TileKind::Wall(Dir::X),
        y == area.max.y - 1 && area.min.x < x < area.max.x - 1 ==> after.tiles.at(x, y).kind
            == TileKind::Wall(Dir::X),
        (x == area.min.x || x == area.max.x - 1) && area.min.y < y < area.max.y - 1
            ==> after.tiles.at(x, y).kind == TileKind::Wall(Dir::Y),
{
}

/// A castle owns all of its area, at one altitude, and nothing else.
pub proof fn law_castles_own_their_area(
    before: Site,
    after: Site,
    id: Id,
    area: Aabr,
    offset: int,
    seed: u32,
    alt: i32,
    x: int,
    y: int,
)
    requires
        is_castle(before, after, id, area, offset, seed, alt),
    ensures
        area.min.x <= x < area.max.x && area.min.y <= y < area.max.y && -256 <= x < 272 && -256 <= y
            < 272 ==> after.tiles.at(x, y).plot == Some(id) && after.tiles.at(x, y).hard_alt == Some(
            alt,
        ),
        !(area.min.x <= x < area.max.x && area.min.y <= y < area.max.y) ==> after.tiles.at(x, y)
            == before.tiles.at(x, y),
        id.idx == before.plots@.len(),
        after.plots@[before.plots@.len() as int].kind == PlotKind::Castle,
        after.plots@[before.plots@.len() as int].tiles@ == area_tiles(area),
        after.plots@[before.plots@.len() as int].seed == seed,
        after.plazas == before.plazas,
        after.roads == before.roads,
        after.tiles.bounds == grown(before.tiles.bounds, area),
{
}

/// A castle fits wherever its gate is five tiles or more from the corner, and as far from the end of
/// the shorter side.
pub proof fn law_castles_fit_between_the_corners(area: Aabr, offset: int)
    ensures
        castle_fits(area, offset) <==> 5 <= offset && offset + 5 <= area.max.x - area.min.x && offset
            + 5 <= area.max.y - area.min.y,
{
}

/// A road of some width reaches half of it, rounded down, from each node: up to there below and to
/// the left of it, and one tile less far above and to the right. Each empty tile in reach becomes a
/// stretch from the node before to the node after the first node that reaches it, at the altitude
/// that was given for it.
pub proof fn law_roads_follow_their_nodes(
    before: TileGrid,
    after: TileGrid,
    path: Seq<Vec2>,
    w: u16,
    id: Id,
    alts: Seq<i32>,
    i: int,
    x: int,
    y: int,
)
    requires
        is_road_laid(before, after, path, w, id, alts),
        path.len() <= 0x1_0000,
        0 <= i < path.len(),
        -(w as int / 2) <= x - path[i].x < w as int / 2,
        -(w as int / 2) <= y - path[i].y < w as int / 2,
        forall|j: int|
            0 <= j < i ==> !(-(w as int / 2) <= x - (#[trigger] path[j]).x < w as int / 2 && -(
            w as int / 2) <= y - path[j].y < w as int / 2),
        -256 <= x < 272,
        -256 <= y < 272,
        before.at(x, y).kind == TileKind::Empty,
    ensures
        ({
            let n = 2 * (w as int / 2);
            let there = after.at(x, y);
            &&& there.kind is Road
            &&& there.kind->w == w
            &&& i > 0 ==> there.kind->a == i - 1
            &&& i == 0 ==> there.kind->a == 0
            &&& i < path.len() - 1 ==> there.kind->b == i + 1
            &&& i == path.len() - 1 ==> there.kind->b == i
            &&& there.plot == Some(id)
            &&& there.hard_alt == Some(
                alts[i * (n * n) + (y - path[i].y + n / 2) * n + (x - path[i].x + n / 2)],
            )
        }),
{
    let h = w as int / 2;
    let n = 2 * h;
    let f = first_cover(path, w, x, y);
    assert(covers(path[i], w, x, y));
    lemma_first_cover_is_least(path, w, x, y, i);
    lemma_first_cover_range(path, w, x, y);
    assert(f == i);
    let row = y - path[i].y + h;
    let col = x - path[i].x + h;
    assert((i * n + row) * n + col == i * (n * n) + row * n + col) by (nonlinear_arith);
    assert(n / 2 == h);
}

/// A road leaves every tile that is not empty, and every tile that none of its nodes reaches.
pub proof fn law_roads_leave_the_rest(
    before: TileGrid,
    after: TileGrid,
    path: Seq<Vec2>,
    w: u16,
    id: Id,
    alts: Seq<i32>,
    x: int,
    y: int,
)
    requires
        is_road_laid(before, after, path, w, id, alts),
        before.at(x, y).kind != TileKind::Empty || forall|j: int|
            0 <= j < path.len() ==> !(-(w as int / 2) <= x - (#[trigger] path[j]).x < w as int / 2
                && -(w as int / 2) <= y - path[j].y < w as int / 2),
    ensures
        after.at(x, y) == before.at(x, y),
{
    lemma_first_cover_range(path, w, x, y);
    if first_cover(path, w, x, y) < path.len() {
        assert(covers(path[first_cover(path, w, x, y)], w, x, y));
    }
}

/// The bounds of a site enclose the roads that are laid, and never shrink.
pub proof fn law_bounds_enclose_roads(
    before: TileGrid,
    after: TileGrid,
    path: Seq<Vec2>,
    w: u16,
    id: Id,
    alts: Seq<i32>,
    i: int,
    x: int,
    y: int,
)
    requires
        is_road_laid(before, after, path, w, id, alts),
        0 <= i < path.len(),
        -(w as int / 2) <= x - path[i].x < w as int / 2,
        -(w as int / 2) <= y - path[i].y < w as int / 2,
        before.at(x, y).kind == TileKind::Empty,
    ensures
        after.bounds.min.x <= x <= after.bounds.max.x,
        after.bounds.min.y <= y <= after.bounds.max.y,
        after.bounds.min.x <= before.bounds.min.x,
        after.bounds.min.y <= before.bounds.min.y,
        after.bounds.max.x >= before.bounds.max.x,
        after.bounds.max.y >= before.bounds.max.y,
{
    assert(covers(path[i], w, x, y));
    lemma_first_cover_is_least(path, w, x, y, i);
    let ground = road_ground(before, path, w);
    assert(ground.contains((x, y)));
}

/// Whether a node of a road reaches the tile at `(x, y)`.
pub open spec fn is_reached(path: Seq<Vec2>, w: u16, x: int, y: int) -> bool {
    exists|j: int|
        0 <= j < path.len() && -(w as int / 2) <= x - (#[trigger] path[j]).x < w as int / 2 && -(
        w as int / 2) <= y - path[j].y < w as int / 2
}

/// On each side the bounds of a site reach no farther than they did, or than an empty tile that a
/// new road reaches.
pub proof fn law_bounds_grow_no_farther_than_roads(
    before: TileGrid,
    after: TileGrid,
    path: Seq<Vec2>,
    w: u16,
    id: Id,
    alts: Seq<i32>,
)
    requires
        is_road_laid(before, after, path, w, id, alts),
    ensures
        after.bounds.min.x == before.bounds.min.x || exists|x: int, y: int|
            (#[trigger] before.at(x, y)).kind is Empty && is_reached(path, w, x, y) && x
                == after.bounds.min.x,
        after.bounds.min.y == before.bounds.min.y || exists|x: int, y: int|
            (#[trigger] before.at(x, y)).kind is Empty && is_reached(path, w, x, y) && y
                == after.bounds.min.y,
        after.bounds.max.x == before.bounds.max.x || exists|x: int, y: int|
            (#[trigger] before.at(x, y)).kind is Empty && is_reached(path, w, x, y) && x
                == after.bounds.max.x,
        after.bounds.max.y == before.bounds.max.y || exists|x: int, y: int|
            (#[trigger] before.at(x, y)).kind is Empty && is_reached(path, w, x, y) && y
                == after.bounds.max.y,
{
    let ground = road_ground(before, path, w);
    assert forall|p: (int, int)| #[trigger] ground.contains(p) implies before.at(
        p.0,
        p.1,
    ).kind is Empty && is_reached(path, w, p.0, p.1) by {
        lemma_first_cover_range(path, w, p.0, p.1);
        assert(covers(path[first_cover(path, w, p.0, p.1)], w, p.0, p.1));
    }
    if after.bounds.min.x != before.bounds.min.x {
        let p = choose|p: (int, int)| #[trigger] ground.contains(p) && p.0 == after.bounds.min.x;
        assert(before.at(p.0, p.1).kind is Empty);
    }
    if after.bounds.min.y != before.bounds.min.y {
        let p = choose|p: (int, int)| #[trigger] ground.contains(p) && p.1 == after.bounds.min.y;
        assert(before.at(p.0, p.1).kind is Empty);
    }
    if after.bounds.max.x != before.bounds.max.x {
        let p = choose|p: (int, int)| #[trigger] ground.contains(p) && p.0 == after.bounds.max.x;
        assert(before.at(p.0, p.1).kind is Empty);
    }
    if after.bounds.max.y != before.bounds.max.y {
        let p = choose|p: (int, int)| #[trigger] ground.contains(p) && p.1 == after.bounds.max.y;
        assert(before.at(p.0, p.1).kind is Empty);
    }
}

/// A new road is the last plot and the last road. Its plot lists the nodes of its path.
pub proof fn law_roads_are_listed(
    before: Site,
    after: Site,
    id: Id,
    a: Vec2,
    path: Seq<Vec2>,
    w: u16,
    alts: Seq<i32>,
    seed: u32,
)
    requires
        is_road_added(before, after, id, a, path, w, alts, seed),
    ensures
        id.idx == before.plots@.len(),
        after.plots@.len() == before.plots@.len() + 1,
        after.roads@.len() == before.roads@.len() + 1,
        after.roads@[before.roads@.len() as int] == id,
        forall|i: int|
            0 <= i < before.roads@.len() ==> (#[trigger] after.roads@[i]) == before.roads@[i],
        after.plazas == before.plazas,
        ({
            let plot = after.plots@[before.plots@.len() as int];
            &&& plot.kind is Road
            &&& plot.kind->Road_0@ == path
            &&& plot.tiles@ == path
            &&& plot.root_tile == a
            &&& plot.seed == seed
        }),
        forall|i: int|
            0 <= i < before.plots@.len() ==> (#[trigger] after.plots@[i]) == before.plots@[i],
        after.origin == before.origin,
        after.name == before.name,
        is_road_laid(before.tiles, after.tiles, path, w, id, alts),
{
    assert forall|i: int| 0 <= i < before.plots@.len() implies (#[trigger] after.plots@[i])
        == before.plots@[i] by {
        assert(after.plots@.take(before.plots@.len() as int)[i] == before.plots@[i]);
    }
}

/// A road has room if each tile in reach of a node has a position, and the tiles around a node are
/// as many as a square of twice the reach has.
pub proof fn law_roads_have_room(path: Seq<Vec2>, w: u16)
    ensures
        (forall|i: int|
            0 <= i < path.len() ==> -0x8000_0000 <= (#[trigger] path[i]).x - w as int / 2
                && path[i].x + w as int / 2 <= 0x7fff_ffff && -0x8000_0000 <= path[i].y - w as int
                / 2 && path[i].y + w as int / 2 <= 0x7fff_ffff) ==> road_fits(path, w),
        w % 2 == 0 ==> cells_per_node(w) == w * w,
        w % 2 == 1 ==> cells_per_node(w) == (w - 1) * (w - 1),
{
    let h = w as int / 2;
    assert(w % 2 == 0 ==> 2 * h == w);
    assert(w % 2 == 1 ==> 2 * h == w - 1);
}

/// The settings by which roads, plazas and bridges are made.
pub proof fn law_settings_of_roads_and_plazas()
    ensures
        MAX_ITERS == 4096,
        TURN_COST == 35,
        PLAZA_ATTEMPTS == 32,
        PLAZA_ROAD_WIDTH == 2,
        ROADS_PER_PLAZA == 2,
        BRIDGE_ROAD_WIDTH == 2,
{
}

/// How far a plaza has to be from each other plaza: the square of the distance is 80 at least for a
/// radius of one tile, 152 for two and 248 for three.
pub proof fn law_plazas_keep_their_distance(distance_squared: int)
    ensures
        is_far_enough(distance_squared, 1) <==> distance_squared >= 80,
        is_far_enough(distance_squared, 2) <==> distance_squared >= 152,
        is_far_enough(distance_squared, 3) <==> distance_squared >= 248,
{
    assert((13 + 8 * 1) * (13 + 8 * 1) == 441) by (nonlinear_arith);
    assert((13 + 8 * 2) * (13 + 8 * 2) == 841) by (nonlinear_arith);
    assert((13 + 8 * 3) * (13 + 8 * 3) == 1369) by (nonlinear_arith);
}

/// The distance that a plaza keeps grows with its radius.
pub proof fn law_larger_plazas_keep_more_distance(d: int, e: int, r: int, s: int)
    requires
        is_far_enough(d, s),
        d <= e,
        0 <= r <= s,
    ensures
        is_far_enough(e, r),
{
    assert((13 + 8 * r) * (13 + 8 * r) <= (13 + 8 * s) * (13 + 8 * s)) by (nonlinear_arith)
        requires
            0 <= r <= s,
    ;
}

/// A plaza covers the tiles within its radius along either axis, belongs to the plazas and is the
/// last plot, with its middle as its root.
pub proof fn law_plazas_cover_their_radius(
    before: Site,
    after: Site,
    id: Id,
    pos: Vec2,
    radius: i32,
    seed: u32,
    alt: i32,
    x: int,
    y: int,
)
    requires
        is_plaza_laid(before, after, id, pos, radius, seed, alt),
        0 <= radius <= 0x1000_0000,
        -0x1000_0000 <= pos.x <= 0x1000_0000,
        -0x1000_0000 <= pos.y <= 0x1000_0000,
        -256 <= x < 272,
        -256 <= y < 272,
    ensures
        -radius <= x - pos.x <= radius && -radius <= y - pos.y <= radius ==> after.tiles.at(x, y)
            == (Tile { kind: TileKind::Plaza, plot: Some(id), hard_alt: Some(alt) }),
        !(-radius <= x - pos.x <= radius && -radius <= y - pos.y <= radius) ==> after.tiles.at(x, y)
            == before.tiles.at(x, y),
        after.plots@[before.plots@.len() as int].root_tile == pos,
        after.plots@[before.plots@.len() as int].kind == PlotKind::Plaza,
        after.plots@[before.plots@.len() as int].seed == seed,
        id.idx == before.plots@.len(),
        after.plazas@.len() == before.plazas@.len() + 1,
        after.plazas@[before.plazas@.len() as int] == id,
        forall|i: int|
            0 <= i < before.plazas@.len() ==> (#[trigger] after.plazas@[i]) == before.plazas@[i],
        after.roads == before.roads,
{
}

/// A place for a plaza is a number of steps from where the search is anchored, or the middle. It is
/// taken if it is no obstacle, every plaza is far enough away, and a draw from 0 up to 47 exceeds
/// how far it is from the middle along either axis.
pub proof fn law_plazas_are_tried(
    site: Site,
    rng: SiteRng,
    rng_after: SiteRng,
    anchor: Option<Vec2>,
    offset: Vec2,
    radius: i32,
    r: Option<Vec2>,
    x: int,
    y: int,
)
    requires
        site.is_plaza_tried(rng, rng_after, anchor, offset, radius, r),
        1 <= radius <= 3,
        anchor is Some ==> x == anchor->0.x + offset.x && y == anchor->0.y + offset.y,
        anchor is None ==> x == 0 && y == 0,
        -0x8000_0000 <= x <= 0x7fff_ffff,
        -0x8000_0000 <= y <= 0x7fff_ffff,
    ensures
        ({
            let kind = site.tiles.at(x, y).kind;
            let least = if radius == 1 {
                80int
            } else if radius == 2 {
                152int
            } else {
                248int
            };
            let open = kind is Empty || kind is Field || kind is Plaza || kind is Path
                || kind is Road || kind is Bridge;
            let far = forall|i: int|
                0 <= i < site.plazas@.len() ==> {
                    let root = site.plots@[(#[trigger] site.plazas@[i]).idx as int].root_tile;
                    (root.x - x) * (root.x - x) + (root.y - y) * (root.y - y) >= least
                };
            let draw = rng.range_value(0, 48);
            &&& r is Some <==> open && far && -draw < x < draw && -draw < y < draw
            &&& r is Some ==> (r->0).x == x && (r->0).y == y
            &&& !(open && far) ==> rng_after == rng
            &&& open && far ==> rng_after == rng.after_range(0, 48)
        }),
{
    let tile = Site::plaza_tile(anchor, offset);
    assert(tile.x == x && tile.y == y);
    let least = if radius == 1 {
        80int
    } else if radius == 2 {
        152int
    } else {
        248int
    };
    assert forall|d: int| #[trigger] is_far_enough(d, radius as int) <==> d >= least by {
        law_plazas_keep_their_distance(d);
    }
    let far = forall|i: int|
        0 <= i < site.plazas@.len() ==> {
            let root = site.plots@[(#[trigger] site.plazas@[i]).idx as int].root_tile;
            (root.x - x) * (root.x - x) + (root.y - y) * (root.y - y) >= least
        };
    assert(far == site.plazas_far_from(tile, radius as int));
}

/// A plaza is joined next to the nearest one, the first listed of several, that lies on the other
/// side, is another one and has not been joined to yet; if there is none, to none.
pub proof fn law_plazas_join_the_nearest(
    site: Site,
    from: Id,
    pos: Vec2,
    pathed: Seq<Id>,
    opposed: Seq<bool>,
    r: Option<Id>,
    j: int,
)
    requires
        site.is_next_plaza(from, pos, pathed, opposed, r),
        0 <= j < site.plazas@.len(),
        opposed[j],
        site.plazas@[j] != from,
        !pathed.contains(site.plazas@[j]),
    ensures
        r is Some,
        r->0 != from,
        !pathed.contains(r->0),
        exists|i: int|
            {
                let root = site.plots@[(r->0).idx as int].root_tile;
                let other = site.plots@[site.plazas@[j].idx as int].root_tile;
                let near = (root.x - pos.x) * (root.x - pos.x) + (root.y - pos.y) * (root.y
                    - pos.y);
                let there = (other.x - pos.x) * (other.x - pos.x) + (other.y - pos.y) * (other.y
                    - pos.y);
                &&& 0 <= i < site.plazas@.len()
                &&& #[trigger] site.plazas@[i] == r->0
                &&& opposed[i]
                &&& near <= there
                &&& near == there ==> i <= j
            },
{
    assert(site.can_join(from, pathed, opposed, j));
    assert(r is Some);
    let i = choose|i: int|
        {
            &&& 0 <= i < site.plazas@.len()
            &&& #[trigger] site.can_join(from, pathed, opposed, i)
            &&& r->0 == site.plazas@[i]
            &&& forall|j: int|
                0 <= j < site.plazas@.len() && #[trigger] site.can_join(from, pathed, opposed, j)
                    ==> site.plaza_distance(i, pos) <= site.plaza_distance(j, pos) && (j < i
                    ==> site.plaza_distance(i, pos) < site.plaza_distance(j, pos))
        };
    assert(site.plazas@[i] == r->0);
}

/// What is joined next is one of the plazas, on the other side, another one and not joined yet.
pub proof fn law_plazas_join_another(
    site: Site,
    from: Id,
    pos: Vec2,
    pathed: Seq<Id>,
    opposed: Seq<bool>,
    id: Id,
)
    requires
        site.is_next_plaza(from, pos, pathed, opposed, Some(id)),
    ensures
        id != from,
        !pathed.contains(id),
        exists|i: int|
            0 <= i < site.plazas@.len() && #[trigger] site.plazas@[i] == id && opposed[i],
{
    let i = choose|i: int|
        0 <= i < site.plazas@.len() && #[trigger] site.can_join(from, pathed, opposed, i) && id
            == site.plazas@[i];
    assert(site.plazas@[i] == id);
}

/// A tile has access to a road exactly if one of the tiles beside it is a plaza, a road or a path:
/// the one above if that is such a tile, else the one to the right, else the one below, else the
/// one to the left.
pub proof fn law_access_is_to_a_road(site: Site, x: int, y: int)
    ensures
        ({
            let kind = |u: int, v: int| site.tiles.at(u, v).kind;
            let up = kind(x, y + 1) is Plaza || kind(x, y + 1) is Road || kind(x, y + 1) is Path;
            let right = kind(x + 1, y) is Plaza || kind(x + 1, y) is Road || kind(x + 1, y) is Path;
            let down = kind(x, y - 1) is Plaza || kind(x, y - 1) is Road || kind(x, y - 1) is Path;
            let left = kind(x - 1, y) is Plaza || kind(x - 1, y) is Road || kind(x - 1, y) is Path;
            let r = site.access(x, y);
            &&& r is None <==> !up && !right && !down && !left
            &&& up ==> r == Some(Vec2 { x: 0, y: 1 })
            &&& right && !up ==> r == Some(Vec2 { x: 1, y: 0 })
            &&& down && !up && !right ==> r is Some && (r->0).x == 0 && (r->0).y == -1
            &&& left && !up && !right && !down ==> r is Some && (r->0).x == -1 && (r->0).y == 0
        }),
{
}

/// The area found is the one that grew at the first of the tiles looked at that has access to a
/// road and at which one grew; the door is on that tile.
pub proof fn law_first_area_with_access_is_found(
    site: Site,
    near: Seq<Vec2>,
    grown: Seq<Option<Aabr>>,
    r: Option<(Aabr, Vec2, Vec2)>,
    i: int,
)
    requires
        site.is_area_found(near, grown, r),
        0 <= i < near.len(),
        grown[i] is Some,
        site.access(near[i].x as int, near[i].y as int) is Some,
        forall|j: int|
            0 <= j < i ==> grown[j] is None || site.access(
                (#[trigger] near[j]).x as int,
                near[j].y as int,
            ) is None,
    ensures
        r == Some(
            (
                grown[i]->0,
                near[i],
                site.access(near[i].x as int, near[i].y as int)->0,
            ),
        ),
{
    assert(site.suits(near, grown, i));
    assert(r is Some);
    let found = r->0;
    let k = choose|k: int|
        {
            &&& 0 <= k < near.len()
            &&& #[trigger] site.suits(near, grown, k)
            &&& forall|j: int| 0 <= j < k ==> !(#[trigger] site.suits(near, grown, j))
            &&& Some(found.0) == grown[k]
            &&& found.1 == near[k]
            &&& Some(found.2) == site.access(near[k].x as int, near[k].y as int)
        };
    assert(near[k] == near[k]);
    assert(k == i);
}

/// Nothing is found if no tile looked at has access to a road and an area.
pub proof fn law_no_area_without_access(
    site: Site,
    near: Seq<Vec2>,
    grown: Seq<Option<Aabr>>,
    r: Option<(Aabr, Vec2, Vec2)>,
)
    requires
        site.is_area_found(near, grown, r),
        forall|j: int|
            0 <= j < near.len() ==> grown[j] is None || site.access(
                (#[trigger] near[j]).x as int,
                near[j].y as int,
            ) is None,
    ensures
        r is None,
{
    if r is Some {
        let k = choose|k: int| 0 <= k < near.len() && #[trigger] site.suits(near, grown, k);
        assert(near[k] == near[k]);
    }
}

/// Beside a plaza is farther away from its root, in each direction, than all of its tiles reach
/// from one side to the other: by one more tile.
pub proof fn law_beside_a_plaza(
    plaza: Plot,
    dir: Vec2,
    min_x: int,
    max_x: int,
    min_y: int,
    max_y: int,
)
    requires
        bounds_of(plaza.root_tile, plaza.tiles@).min.x == min_x,
        bounds_of(plaza.root_tile, plaza.tiles@).max.x == max_x,
        bounds_of(plaza.root_tile, plaza.tiles@).min.y == min_y,
        bounds_of(plaza.root_tile, plaza.tiles@).max.y == max_y,
        -1 <= dir.x <= 1,
        -1 <= dir.y <= 1,
        beyond_fits(plaza, dir),
    ensures
        dir.x == 0 ==> beyond(plaza, dir).x == plaza.root_tile.x,
        dir.x == 1 ==> beyond(plaza, dir).x == plaza.root_tile.x + (max_x - min_x + 1),
        dir.x == -1 ==> beyond(plaza, dir).x == plaza.root_tile.x - (max_x - min_x + 1),
        dir.y == 0 ==> beyond(plaza, dir).y == plaza.root_tile.y,
        dir.y == 1 ==> beyond(plaza, dir).y == plaza.root_tile.y + (max_y - min_y + 1),
        dir.y == -1 ==> beyond(plaza, dir).y == plaza.root_tile.y - (max_y - min_y + 1),
{
    let b = bounds_of(plaza.root_tile, plaza.tiles@);
    let w = b.width() + 1;
    let h = b.height() + 1;
    assert(0 * w == 0 && 1 * w == w && (-1) * w == -w) by (nonlinear_arith);
    assert(0 * h == 0 && 1 * h == h && (-1) * h == -h) by (nonlinear_arith);
}

/// Half of all first draws choose a plaza and go beyond it, the others a road and go one step off
/// one of its nodes. Where there is nothing to choose from, there is no position.
pub proof fn law_roadsides_are_beside_plazas_or_roads(site: Site, rng: SiteRng, dir: Vec2)
    requires
        site.wf(),
        site.roadside_fits(dir),
        site.plazas@.len() > 0 ==> 0 <= rng.skip(1).choice(site.plazas@.len())
            < site.plazas@.len(),
        site.roads@.len() > 0 ==> 0 <= rng.skip(1).choice(site.roads@.len()) < site.roads@.len(),
    ensures
        ({
            let r = site.roadside(rng, dir).0;
            let rest = site.roadside(rng, dir).1;
            let second = rng.skip(1);
            let high = rng.word() >= 0x8000_0000;
            &&& high ==> rest == second.after_choice(site.plazas@.len())
            &&& !high && site.roads@.len() == 0 ==> rest == second.after_choice(0)
            &&& high && site.plazas@.len() == 0 ==> r is None
            &&& !high && site.roads@.len() == 0 ==> r is None
            &&& high && site.plazas@.len() > 0 ==> r == Some(
                beyond(
                    site.plots@[site.plazas@[second.choice(site.plazas@.len())].idx as int],
                    dir,
                ),
            )
            &&& !high && site.roads@.len() > 0 ==> {
                let road = site.plots@[site.roads@[second.choice(site.roads@.len())].idx as int];
                let path = road.kind->Road_0@;
                let third = second.after_choice(site.roads@.len());
                let k = third.choice(path.len());
                &&& rest == third.after_choice(path.len())
                &&& path.len() == 0 ==> r is None
                &&& 0 <= k < path.len() ==> r is Some && (r->0).x == path[k].x + dir.x && (r->0).y
                    == path[k].y + dir.y
            }
        }),
{
    if site.roads@.len() > 0 {
        let id = site.roads@[rng.skip(1).choice(site.roads@.len())];
        assert(site.plot_of(id).kind is Road);
    }
}

/// A road is obstructed where one of the tiles that it would reach from a node is an obstacle, and
/// runs over taken ground where one of them is not empty.
pub proof fn law_roads_avoid_what_they_would_reach(site: Site, tile: Vec2, w: u16, dx: int, dy: int)
    requires
        -(w as int / 2) <= dx < w as int / 2,
        -(w as int / 2) <= dy < w as int / 2,
    ensures
        ({
            let kind = site.tiles.at(tile.x + dx, tile.y + dy).kind;
            &&& kind is Hazard || kind is Building || kind is Castle || kind is Wall
                || kind is Tower || kind is Keep || kind is Gate || kind is GnarlingFortification
                || kind is AdletStronghold ==> site.is_obstructed(tile, w)
            &&& !(kind is Empty) ==> site.is_taken(tile, w)
        }),
{
    let x = tile.x + dx;
    let y = tile.y + dy;
    assert(covers(tile, w, x, y));
    assert(site.tiles.at(x, y) == site.tiles.at(x, y));
}

/// A road is not obstructed, and the ground is free, where all tiles that it would reach are empty.
pub proof fn law_roads_run_over_empty_ground(site: Site, tile: Vec2, w: u16)
    requires
        forall|x: int, y: int|
            -(w as int / 2) <= x - tile.x < w as int / 2 && -(w as int / 2) <= y - tile.y < w as int
                / 2 ==> (#[trigger] site.tiles.at(x, y)).kind is Empty,
    ensures
        !site.is_obstructed(tile, w),
        !site.is_taken(tile, w),
{
}

/// The middle of a chunk is sixteen blocks from its corner, and chunks are thirty-two blocks wide.
pub proof fn law_chunks_are_thirty_two_blocks_wide(chunk: int)
    ensures
        chunk_middle(0) == 16,
        chunk_middle(chunk + 1) == chunk_middle(chunk) + 32,
        chunk_middle(chunk) == 32 * chunk + 16,
{
}

/// A bridge is widened on either side by a sixth of its width and half a tile, rounded to the side
/// of zero.
pub proof fn law_bridges_are_widened_by_tiles(width: int)
    ensures
        -5 <= width + 3 - 6 * widening(width) <= 5,
        width >= -3 ==> 0 <= 6 * widening(width) <= width + 3,
        width <= -3 ==> width + 3 <= 6 * widening(width) <= 0,
{
}

/// A bridge that was planned between two tiles is widened across its run: along x if the tiles
/// differ in y, and along y if they differ in x. Along an axis in which it is not widened it
/// reaches from one end to the other.
pub proof fn law_bridges_are_widened_across_their_run(
    site: Site,
    plan: BridgePlan,
    shape: BridgeShape,
    start: Vec2,
    area: Aabr,
    a: int,
    b: int,
    c: int,
    d: int,
    more: int,
)
    requires
        plan.orth == across(plan.start_tile, plan.end_tile),
        site.is_bridge_area(plan, shape, start, area),
        tile_of_block(site.origin.x as int, shape.start.x as int) == a,
        tile_of_block(site.origin.x as int, shape.end.x as int) == b,
        tile_of_block(site.origin.y as int, shape.start.y as int) == c,
        tile_of_block(site.origin.y as int, shape.end.y as int) == d,
        -5 <= shape.width + 3 - 6 * more <= 5,
        shape.width >= -3 ==> 0 <= 6 * more <= shape.width + 3,
        shape.width <= -3 ==> shape.width + 3 <= 6 * more <= 0,
    ensures
        start.x == a,
        start.y == c,
        plan.start_tile.y != plan.end_tile.y && a <= b ==> area.min.x == a - more && area.max.x == b
            + 1 + more,
        plan.start_tile.y != plan.end_tile.y && a >= b ==> area.min.x == b - more && area.max.x == a
            + 1 + more,
        plan.start_tile.x != plan.end_tile.x && c <= d ==> area.min.y == c - more && area.max.y == d
            + 1 + more,
        plan.start_tile.x != plan.end_tile.x && c >= d ==> area.min.y == d - more && area.max.y == c
            + 1 + more,
        plan.start_tile.y == plan.end_tile.y && a <= b ==> area.min.x == a && area.max.x == b + 1,
        plan.start_tile.y == plan.end_tile.y && a >= b ==> area.min.x == b && area.max.x == a + 1,
        plan.start_tile.x == plan.end_tile.x && c <= d ==> area.min.y == c && area.max.y == d + 1,
        plan.start_tile.x == plan.end_tile.x && c >= d ==> area.min.y == d && area.max.y == c + 1,
{
    assert(more == widening(shape.width as int));
    assert(1 * more == more && 0 * more == 0) by (nonlinear_arith);
}

/// Between two different tiles, the area of a bridge that is widened across its run by `more` tiles
/// reaches that far beyond its ends on either side of the run.
pub proof fn law_bridge_spans(a: Vec2, b: Vec2, more: int)
    requires
        -0x1000_0000 <= a.x <= 0x1000_0000,
        -0x1000_0000 <= a.y <= 0x1000_0000,
        -0x1000_0000 <= b.x <= 0x1000_0000,
        -0x1000_0000 <= b.y <= 0x1000_0000,
        -0x1000_0000 <= more <= 0x1000_0000,
    ensures
        ({
            let area = span(a, b, across(a, b), more);
            &&& a.y != b.y && a.x <= b.x ==> area.min.x == a.x - more && area.max.x == b.x + 1 + more
            &&& a.y != b.y && a.x >= b.x ==> area.min.x == b.x - more && area.max.x == a.x + 1 + more
            &&& a.x != b.x && a.y <= b.y ==> area.min.y == a.y - more && area.max.y == b.y + 1 + more
            &&& a.x != b.x && a.y >= b.y ==> area.min.y == b.y - more && area.max.y == a.y + 1 + more
            &&& a.x == b.x && a.y <= b.y ==> area.min.y == a.y && area.max.y == b.y + 1
            &&& a.x == b.x && a.y >= b.y ==> area.min.y == b.y && area.max.y == a.y + 1
            &&& a.y == b.y && a.x <= b.x ==> area.min.x == a.x && area.max.x == b.x + 1
            &&& a.y == b.y && a.x >= b.x ==> area.min.x == b.x && area.max.x == a.x + 1
        }),
{
    assert(1 * more == more && 0 * more == 0) by (nonlinear_arith);
}

/// Swapping x and y of both ends of a bridge swaps x and y of its area, and swapping its ends leaves
/// it.
pub proof fn law_bridges_swap_with_their_axes(a: Vec2, b: Vec2, more: int)
    ensures
        ({
            let area = span(a, b, across(a, b), more);
            let c = Vec2 { x: a.y, y: a.x };
            let d = Vec2 { x: b.y, y: b.x };
            let swapped = span(c, d, across(c, d), more);
            &&& swapped.min.x == area.min.y && swapped.min.y == area.min.x
            &&& swapped.max.x == area.max.y && swapped.max.y == area.max.x
            &&& span(b, a, across(b, a), more) == area
        }),
{
}

/// The road ahead of a bridge starts one step beyond the side that the bridge leads to, the road
/// behind it one step beyond the opposite side; both end at the edge of the planned area on their
/// side, in line with the middle of the bridge.
pub proof fn law_approaches_lead_away(plan: BridgePlan, area: Aabr, dir: Dir, r: Approaches)
    requires
        plan.are_approaches(area, dir, r),
        -0x7000_0000 <= area.min.x <= area.max.x <= 0x7000_0000,
        -0x7000_0000 <= area.min.y <= area.max.y <= 0x7000_0000,
    ensures
        ({
            let c = center_tile(area);
            let p = plan.start_aabr;
            &&& dir == Dir::X ==> r.ahead_from.x == area.max.x + 1 && r.ahead_to.x == p.max.x
                && r.behind_from.x == area.min.x - 1 && r.behind_to.x == p.min.x
            &&& dir == Dir::NegX ==> r.ahead_from.x == area.min.x - 1 && r.ahead_to.x == p.min.x
                && r.behind_from.x == area.max.x + 1 && r.behind_to.x == p.max.x
            &&& dir == Dir::X || dir == Dir::NegX ==> r.ahead_from.y == c.y && r.ahead_to.y == c.y
                && r.behind_from.y == c.y && r.behind_to.y == c.y
            &&& dir == Dir::Y ==> r.ahead_from.y == area.max.y + 1 && r.ahead_to.y == p.max.y
                && r.behind_from.y == area.min.y - 1 && r.behind_to.y == p.min.y
            &&& dir == Dir::NegY ==> r.ahead_from.y == area.min.y - 1 && r.ahead_to.y == p.min.y
                && r.behind_from.y == area.max.y + 1 && r.behind_to.y == p.max.y
            &&& dir == Dir::Y || dir == Dir::NegY ==> r.ahead_from.x == c.x && r.ahead_to.x == c.x
                && r.behind_from.x == c.x && r.behind_to.x == c.x
        }),
{
}

/// What lies behind a bridge lies ahead of the same bridge led the other way.
pub proof fn law_approaches_turn_with_bridges(
    plan: BridgePlan,
    area: Aabr,
    dir: Dir,
    r: Approaches,
    back: Approaches,
)
    requires
        plan.are_approaches(area, dir, r),
        plan.are_approaches(area, dir.spec_opposite(), back),
    ensures
        back == (Approaches {
            ahead_from: r.behind_from,
            ahead_to: r.behind_to,
            behind_from: r.ahead_from,
            behind_to: r.ahead_to,
        }),
{
}

/// The roads onto a bridge are made one after the other, first the one ahead, then the one behind,
/// and then the bridge is raised where it was found to lie.
pub proof fn law_bridges_get_their_roads_in_turn(bridge: Bridge, next: Bridge)
    requires
        next.phase == bridge.after_road(),
    ensures
        bridge.phase matches BridgePhase::Ahead { start_tile, aabr, roads } ==> {
            &&& bridge.spec_road_due() == Some((roads.ahead_from, roads.ahead_to))
            &&& next.spec_road_due() == Some((roads.behind_from, roads.behind_to))
            &&& next.phase == (BridgePhase::Behind { start_tile, aabr, roads })
        },
        bridge.phase matches BridgePhase::Behind { start_tile, aabr, roads } ==> {
            &&& bridge.spec_road_due() == Some((roads.behind_from, roads.behind_to))
            &&& next.spec_road_due() is None
            &&& next.phase == (BridgePhase::Raise { start_tile, aabr })
        },
        !(bridge.phase is Ahead || bridge.phase is Behind) ==> bridge.spec_road_due() is None
            && next.phase == bridge.phase,
{
}

/// A landmark covers as many tiles on one side of the middle as on the other, and some more above
/// and to the right; the rest is as the survey found it, and is the only plot.
pub proof fn law_landmarks_cover_their_area(
    site: Site,
    origin: Vec2,
    name: Seq<char>,
    surveys: Seq<TileSurvey>,
    kind: PlotKind,
    size: int,
    more: int,
    seed: u32,
    cover: TileKind,
    alt: Option<i32>,
    x: int,
    y: int,
)
    requires
        is_landmark(
            site,
            origin,
            name,
            surveys,
            kind,
            landmark_area(size, more),
            seed,
            cover,
            alt,
        ),
        0 <= size <= 0x1000_0000,
        0 <= more <= 0x1000_0000,
    ensures
        site.plots@.len() == 1,
        site.plots@[0].kind == kind,
        site.plots@[0].seed == seed,
        site.plazas@.len() == 0,
        site.roads@.len() == 0,
        site.origin == origin,
        site.name@ == name,
        -256 <= x < 272 && -256 <= y < 272 && -size <= x < size + more && -size <= y < size + more
            ==> site.tiles.at(x, y) == (Tile {
            kind: cover,
            plot: Some(Id { idx: 0 }),
            hard_alt: alt,
        }),
        !(-size <= x < size + more && -size <= y < size + more) ==> site.tiles.at(x, y).plot is None
            && site.tiles.at(x, y).hard_alt is None,
        !(-size <= x < size + more && -size <= y < size + more) && surveys.len() == 0
            ==> site.tiles.at(x, y).kind == TileKind::Empty,
        size + more > -size ==> site.tiles.bounds.min.x == -size && site.tiles.bounds.min.y == -size,
        size + more > 0 ==> site.tiles.bounds.max.x == size + more - 1 && site.tiles.bounds.max.y
            == size + more - 1,
        0 <= 2 * site.plots@[0].root_tile.x <= more,
        0 <= more - 2 * site.plots@[0].root_tile.x <= 1,
        0 <= more - 2 * site.plots@[0].root_tile.y <= 1,
{
}

/// Outside of its area a landmark leaves what a survey of bare land marks.
pub proof fn law_landmarks_leave_the_land(
    site: Site,
    origin: Vec2,
    name: Seq<char>,
    surveys: Seq<TileSurvey>,
    kind: PlotKind,
    area: Aabr,
    seed: u32,
    cover: TileKind,
    alt: Option<i32>,
    bare: TileGrid,
    land: TileGrid,
    x: int,
    y: int,
)
    requires
        is_landmark(site, origin, name, surveys, kind, area, seed, cover, alt),
        bare.at(x, y) == (Tile { kind: TileKind::Empty, plot: None, hard_alt: None }),
        is_surveyed(origin, bare, land, surveys),
        !(area.min.x <= x < area.max.x && area.min.y <= y < area.max.y),
    ensures
        site.tiles.at(x, y) == land.at(x, y),
{
}

/// A new plot comes after all others, which stay, as do the place and the name of the site.
pub proof fn law_new_plots_come_last(before: Site, after: Site, id: Id, i: int)
    requires
        after.has_new_plot(before, id),
        0 <= i < before.plots@.len(),
    ensures
        id.idx == before.plots@.len(),
        after.plots@.len() == before.plots@.len() + 1,
        after.plots@[i] == before.plots@[i],
        after.origin == before.origin,
        after.name == before.name,
{
    assert(after.plots@.take(before.plots@.len() as int)[i] == before.plots@[i]);
}

/// In every site each tile that belongs to a plot lies within the bounds and belongs to one that
/// there is. What is listed as a plaza is one, and what is listed as a road is one.
pub proof fn law_sites_hold_together(site: Site, x: int, y: int, i: int)
    requires
        site.wf(),
    ensures
        site.tiles.at(x, y).plot matches Some(id) ==> {
            &&& id.idx < site.plots@.len()
            &&& site.tiles.bounds.min.x <= x <= site.tiles.bounds.max.x
            &&& site.tiles.bounds.min.y <= y <= site.tiles.bounds.max.y
            &&& site.tiles.at(x, y).kind is Road && site.plots@[id.idx as int].kind is Road ==> {
                let path = site.plots@[id.idx as int].kind->Road_0@;
                site.tiles.at(x, y).kind->a < path.len() && site.tiles.at(x, y).kind->b
                    < path.len()
            }
        },
        0 <= i < site.plazas@.len() ==> site.plazas@[i].idx < site.plots@.len()
            && site.plots@[site.plazas@[i].idx as int].kind == PlotKind::Plaza,
        0 <= i < site.roads@.len() ==> site.roads@[i].idx < site.plots@.len()
            && site.plots@[site.roads@[i].idx as int].kind is Road,
{
}

/// A site that was just started has no plots and no name, its bounds hold the middle only, and every
/// tile is empty.
pub proof fn law_sites_start_empty(
    started: (Site, SiteRng),
    parent: SiteRng,
    origin: Vec2,
    x: int,
    y: int,
)
    requires
        is_site_started(started, parent, origin),
    ensures
        started.0.origin == origin,
        started.0.name@.len() == 0,
        started.0.plots@.len() == 0,
        started.0.plazas@.len() == 0,
        started.0.roads@.len() == 0,
        started.0.tiles.at(x, y) == (Tile { kind: TileKind::Empty, plot: None, hard_alt: None }),
        started.0.tiles.bounds.min == (Vec2 { x: 0, y: 0 }),
        started.0.tiles.bounds.max == (Vec2 { x: 0, y: 0 }),
        started.1.pos == 0,
{
}

/// What else changes, if only the tiles of a site are: nothing.
pub proof fn law_sites_with_other_tiles(site: Site, other: Site)
    ensures
        site.same_but_tiles(other) <==> site.origin == other.origin && site.name == other.name
            && site.plots == other.plots && site.plazas == other.plazas && site.roads
            == other.roads,
        site.same_but_tiles(other) && site.tiles == other.tiles ==> site == other,
{
}

/// Between any two plazas of a site whose plazas are apart, the square of the distance is 80 at
/// least.
pub proof fn law_plazas_are_apart(site: Site, i: int, j: int)
    requires
        site.plazas_apart(),
        0 <= i < j < site.plazas@.len(),
    ensures
        ({
            let a = site.plots@[site.plazas@[i].idx as int].root_tile;
            let b = site.plots@[site.plazas@[j].idx as int].root_tile;
            (a.x - b.x) * (a.x - b.x) + (a.y - b.y) * (a.y - b.y) >= 80
        }),
{
    law_plazas_keep_their_distance(
        site.plot_of(site.plazas@[i]).root_tile.distance_squared_to(
            site.plot_of(site.plazas@[j]).root_tile,
        ),
    );
}

} // verus!
