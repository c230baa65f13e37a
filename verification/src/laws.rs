//! What holds across operations: of positions, areas, roads, plazas, towns and what is shown.

use crate::bridge::{span, CHUNK_SIZE};
use crate::castle::{castle_fits, in_court, is_castle};
use crate::coords::{block_of_tile, distance_to_tile_squared, tile_of_block};
use crate::generate::{is_landmark, is_site_started, is_town_started};
use crate::geom::{abs_int, clamp_int, Aabr, Dir, Vec2};
use crate::obstacles::{first_hazard_of, is_on_path, spoils, surveyed_kind, TileSurvey};
use crate::plaza::{is_far_enough, is_plaza_laid, plaza_area, ROADS_PER_PLAZA};
use crate::plot::{bounds_of, Id, Plot, PlotKind};
use crate::render::{is_surface, is_underground, road_edit, BlockClass, BlockEdit};
use crate::rng::SiteRng;
use crate::roads::{
    cell_number, covers, first_cover, is_road_added, lemma_first_cover_is_least,
    lemma_first_cover_range, road_tile,
};
use crate::rules::{is_listing, SpawnRules};
use crate::search::{beyond, beyond_fits};
use crate::site::{area_tiles, center_tile, Site};
use crate::tile::{on_grid, TileKind, TILE_SIZE};
use crate::town::{
    count_of, is_first_building, lemma_counted_plots_exist, lists_all, middle_area, Build, Town,
    TownKind,
};
use vstd::arithmetic::div_mod::{
    lemma_fundamental_div_mod, lemma_fundamental_div_mod_converse,
};
use vstd::prelude::*;

verus! {

/// Two generators that were seeded from ones in the same state are the same.
pub proof fn law_children_are_alike(parent: SiteRng, a: SiteRng, b: SiteRng)
    requires
        a.is_child(parent),
        b.is_child(parent),
    ensures
        a == b,
{
    assert forall|i: int| 0 <= i < 32 implies a.seed@[i] == b.seed@[i] by {
        assert(a.seed@[i] == parent.skip(i).word() % 256);
        assert(b.seed@[i] == parent.skip(i).word() % 256);
    }
    assert(a.seed =~= b.seed);
}

/// Two towns, of whatever kind and wherever they are, that were started from generators in the same
/// state leave these in the same state, and go on with the same generator themselves.
pub proof fn law_callers_go_on_alike(
    parent: SiteRng,
    after_a: SiteRng,
    a: (Town, SiteRng),
    origin_a: Vec2,
    kind_a: TownKind,
    rounds_a: u32,
    after_b: SiteRng,
    b: (Town, SiteRng),
    origin_b: Vec2,
    kind_b: TownKind,
    rounds_b: u32,
)
    requires
        is_town_started(a, parent, origin_a, kind_a, rounds_a),
        after_a == parent.skip(32),
        is_town_started(b, parent, origin_b, kind_b, rounds_b),
        after_b == parent.skip(32),
    ensures
        after_a == after_b,
        a.1 == b.1,
{
    law_children_are_alike(parent, a.1, b.1);
}

/// The same holds of two sites of any kind.
pub proof fn law_callers_of_sites_go_on_alike(
    parent: SiteRng,
    after_a: SiteRng,
    a: (Site, SiteRng),
    origin_a: Vec2,
    after_b: SiteRng,
    b: (Site, SiteRng),
    origin_b: Vec2,
)
    requires
        is_site_started(a, parent, origin_a),
        after_a == parent.skip(32),
        is_site_started(b, parent, origin_b),
        after_b == parent.skip(32),
    ensures
        after_a == after_b,
        a.1 == b.1,
{
    law_children_are_alike(parent, a.1, b.1);
}

/// Every block of a tile lies in that tile: its corner, its middle, and all others.
pub proof fn law_blocks_lie_in_their_tile(origin: int, tile: int, step: int)
    requires
        0 <= step < TILE_SIZE,
    ensures
        tile_of_block(origin, block_of_tile(origin, tile) + step) == tile,
{
}

/// A block lies between the corner of its tile and the corner of the next.
pub proof fn law_tile_of_block_holds_it(origin: int, block: int)
    ensures
        ({
            let tile = tile_of_block(origin, block);
            block_of_tile(origin, tile) <= block < block_of_tile(origin, tile + 1)
        }),
{
}

/// A block of a tile that belongs to a plot lies within the bounds of the site, at least one
/// tile from their edge.
pub proof fn law_bounds_cover_plots(site: Site, bx: int, by: int)
    requires
        site.wf(),
        site.tiles.at(
            tile_of_block(site.origin.x as int, bx),
            tile_of_block(site.origin.y as int, by),
        ).plot is Some,
    ensures
        block_of_tile(site.origin.x as int, site.tiles.bounds.min.x - 1) <= bx - TILE_SIZE,
        block_of_tile(site.origin.y as int, site.tiles.bounds.min.y - 1) <= by - TILE_SIZE,
        bx + TILE_SIZE < block_of_tile(site.origin.x as int, site.tiles.bounds.max.x + 2),
        by + TILE_SIZE < block_of_tile(site.origin.y as int, site.tiles.bounds.max.y + 2),
{
    let x = tile_of_block(site.origin.x as int, bx);
    let y = tile_of_block(site.origin.y as int, by);
    assert(site.tiles.bounds.encloses(x, y));
}

/// A block of a tile that belongs to a plot is nearer to the origin along either axis than the
/// radius of the site.
pub proof fn law_radius_covers_plots(site: Site, bx: int, by: int)
    requires
        site.wf(),
        site.tiles.at(
            tile_of_block(site.origin.x as int, bx),
            tile_of_block(site.origin.y as int, by),
        ).plot is Some,
    ensures
        abs_int(bx - site.origin.x) < site.spec_radius(),
        abs_int(by - site.origin.y) < site.spec_radius(),
{
    let x = tile_of_block(site.origin.x as int, bx);
    let y = tile_of_block(site.origin.y as int, by);
    assert(site.tiles.bounds.encloses(x, y));
    let reach = site.reach();
    assert(-reach <= x <= reach);
    assert(-reach <= y <= reach);
}

/// The tiles of an area are listed once each, and no others are.
pub proof fn law_area_is_listed_once(aabr: Aabr)
    ensures
        forall|i: int, j: int|
            0 <= i < j < area_tiles(aabr).len() ==> #[trigger] area_tiles(aabr)[i]
                != #[trigger] area_tiles(aabr)[j],
        forall|p: Vec2|
            #[trigger] area_tiles(aabr).contains(p) <==> aabr.holds(p.x as int, p.y as int),
{
    let tiles = area_tiles(aabr);
    let w = aabr.width();
    let h = aabr.height();
    if aabr.is_void() {
        assert(tiles.len() == 0);
    } else {
        assert forall|k: int| 0 <= k < tiles.len() implies {
            &&& 0 <= k % w < w
            &&& 0 <= k / w < h
            &&& k == w * (k / w) + k % w
            &&& (#[trigger] tiles[k]).x == aabr.min.x + k % w
            &&& tiles[k].y == aabr.min.y + k / w
        } by {
            lemma_fundamental_div_mod(k, w);
            assert(0 <= k / w < h) by (nonlinear_arith)
                requires
                    0 <= k < w * h,
                    w > 0,
                    0 <= k % w < w,
                    k == w * (k / w) + k % w,
            ;
        }
        assert forall|i: int, j: int| 0 <= i < j < tiles.len() implies #[trigger] tiles[i]
            != #[trigger] tiles[j] by {
            if tiles[i] == tiles[j] {
                assert(i == w * (i / w) + i % w);
                assert(j == w * (j / w) + j % w);
            }
        }
        assert forall|p: Vec2|
            #[trigger] tiles.contains(p) <==> aabr.holds(p.x as int, p.y as int) by {
            if aabr.holds(p.x as int, p.y as int) {
                let dx = p.x - aabr.min.x;
                let dy = p.y - aabr.min.y;
                let k = dy * w + dx;
                lemma_fundamental_div_mod_converse(k, w, dy, dx);
                assert(0 <= k < w * h) by (nonlinear_arith)
                    requires
                        k == dy * w + dx,
                        0 <= dx < w,
                        0 <= dy < h,
                ;
                assert(tiles[k] == p);
            }
            if tiles.contains(p) {
                let k = choose|k: int| 0 <= k < tiles.len() && tiles[k] == p;
                assert(tiles[k].x == aabr.min.x + k % w);
            }
        }
    }
}

/// The bounds of a plot hold its root tile and all of its tiles, and each of their sides touches
/// one of these.
pub proof fn law_plot_bounds_are_tight(root: Vec2, tiles: Seq<Vec2>)
    ensures
        ({
            let b = bounds_of(root, tiles);
            &&& b.encloses(root.x as int, root.y as int)
            &&& forall|i: int|
                0 <= i < tiles.len() ==> b.encloses(
                    (#[trigger] tiles[i]).x as int,
                    tiles[i].y as int,
                )
            &&& b.min.x == root.x || exists|i: int|
                0 <= i < tiles.len() && (#[trigger] tiles[i]).x == b.min.x
            &&& b.min.y == root.y || exists|i: int|
                0 <= i < tiles.len() && (#[trigger] tiles[i]).y == b.min.y
            &&& b.max.x == root.x || exists|i: int|
                0 <= i < tiles.len() && (#[trigger] tiles[i]).x == b.max.x
            &&& b.max.y == root.y || exists|i: int|
                0 <= i < tiles.len() && (#[trigger] tiles[i]).y == b.max.y
        }),
    decreases tiles.len(),
{
    if tiles.len() > 0 {
        let rest = tiles.drop_last();
        law_plot_bounds_are_tight(root, rest);
        let b = bounds_of(root, rest);
        let all = bounds_of(root, tiles);
        assert forall|i: int| 0 <= i < tiles.len() implies all.encloses(
            (#[trigger] tiles[i]).x as int,
            tiles[i].y as int,
        ) by {
            if i < rest.len() {
                assert(tiles[i] == rest[i]);
            }
        }
        let last = tiles.len() - 1;
        assert(tiles[last] == tiles.last());
        if b.min.x != root.x {
            let i = choose|i: int| 0 <= i < rest.len() && (#[trigger] rest[i]).x == b.min.x;
            assert(tiles[i] == rest[i]);
        }
        if b.min.y != root.y {
            let i = choose|i: int| 0 <= i < rest.len() && (#[trigger] rest[i]).y == b.min.y;
            assert(tiles[i] == rest[i]);
        }
        if b.max.x != root.x {
            let i = choose|i: int| 0 <= i < rest.len() && (#[trigger] rest[i]).x == b.max.x;
            assert(tiles[i] == rest[i]);
        }
        if b.max.y != root.y {
            let i = choose|i: int| 0 <= i < rest.len() && (#[trigger] rest[i]).y == b.max.y;
            assert(tiles[i] == rest[i]);
        }
    }
}

/// Without a plaza and a road there is nowhere to look for a place to build.
pub proof fn law_no_roadside_without_roads(site: Site, rng: SiteRng, dir: Vec2)
    requires
        site.plazas@.len() == 0,
        site.roads@.len() == 0,
    ensures
        site.roadside(rng, dir).0 is None,
{
}

/// Where one looks for a place to build beside a plaza is outside of that plaza.
pub proof fn law_roadsides_are_off_plazas(plaza: Plot, dir: Vec2)
    requires
        beyond_fits(plaza, dir),
        -1 <= dir.x <= 1,
        -1 <= dir.y <= 1,
        dir.x != 0 || dir.y != 0,
    ensures
        !bounds_of(plaza.root_tile, plaza.tiles@).encloses(
            beyond(plaza, dir).x as int,
            beyond(plaza, dir).y as int,
        ),
{
    let b = bounds_of(plaza.root_tile, plaza.tiles@);
    law_plot_bounds_are_tight(plaza.root_tile, plaza.tiles@);
    let w = b.width() + 1;
    let h = b.height() + 1;
    assert(dir.x * w == w || dir.x * w == -w || dir.x * w == 0 && dir.x == 0)
        by (nonlinear_arith)
        requires
            -1 <= dir.x <= 1,
    ;
    assert(dir.y * h == h || dir.y * h == -h || dir.y * h == 0 && dir.y == 0)
        by (nonlinear_arith)
        requires
            -1 <= dir.y <= 1,
    ;
}

/// A site that is a dungeon is as hard as that dungeon.
pub proof fn law_dungeons_tell_their_difficulty(
    site: Site,
    origin: Vec2,
    name: Seq<char>,
    surveys: Seq<TileSurvey>,
    difficulty: u32,
    area: Aabr,
    seed: u32,
    told: Option<u32>,
)
    requires
        is_landmark(
            site,
            origin,
            name,
            surveys,
            PlotKind::Dungeon { difficulty },
            area,
            seed,
            TileKind::Empty,
            None,
        ),
        site.is_hardest_dungeon(told),
    ensures
        told == Some(difficulty),
{
    assert(site.plots@[0].kind is Dungeon);
}

/// A survey that ends with a path over a tile leaves a path there; one that ends with a hazard
/// spoils the four tiles below and to the left.
pub proof fn law_last_survey_counts(
    origin: Vec2,
    surveys: Seq<TileSurvey>,
    x: int,
    y: int,
    start: TileKind,
)
    requires
        surveys.len() > 0,
    ensures
        surveys.last().tile.x == x && surveys.last().tile.y == y && is_on_path(
            origin,
            surveys.last(),
        ) ==> surveyed_kind(origin, surveys, x, y, start) is Path,
        first_hazard_of(surveys.last().probes@) is Some && spoils(surveys.last(), x, y)
            ==> surveyed_kind(origin, surveys, x, y, start) == TileKind::Hazard(
            first_hazard_of(surveys.last().probes@)->0,
        ),
{
}

/// A road takes no tile that something covers: buildings, plazas, hazards, paths and other roads
/// stay as they were.
pub proof fn law_roads_spare_what_is_there(
    before: Site,
    after: Site,
    id: Id,
    a: Vec2,
    path: Seq<Vec2>,
    w: u16,
    alts: Seq<i32>,
    seed: u32,
    x: int,
    y: int,
)
    requires
        is_road_added(before, after, id, a, path, w, alts, seed),
        !before.tiles.at(x, y).spec_is_empty(),
    ensures
        after.tiles.at(x, y) == before.tiles.at(x, y),
{
}

/// Every empty tile of the grid that a road covers becomes a stretch of that road, which leads
/// from the node before some node that covers the tile to the one after.
pub proof fn law_roads_are_laid_whole(
    before: Site,
    after: Site,
    id: Id,
    a: Vec2,
    path: Seq<Vec2>,
    w: u16,
    alts: Seq<i32>,
    seed: u32,
    node: int,
    x: int,
    y: int,
)
    requires
        is_road_added(before, after, id, a, path, w, alts, seed),
        path.len() <= u16::MAX + 1,
        0 <= node < path.len(),
        covers(path[node], w, x, y),
        before.tiles.at(x, y).spec_is_empty(),
        on_grid(x, y),
    ensures
        after.tiles.at(x, y).plot == Some(id),
        after.tiles.at(x, y).kind is Road,
        exists|i: int|
            {
                &&& 0 <= i <= node
                &&& covers(#[trigger] path[i], w, x, y)
                &&& after.tiles.at(x, y).kind->a == if i == 0 {
                    0
                } else {
                    i - 1
                }
                &&& after.tiles.at(x, y).kind->b == if i + 1 < path.len() {
                    i + 1
                } else {
                    i
                }
            },
{
    lemma_first_cover_is_least(path, w, x, y, node);
    lemma_first_cover_range(path, w, x, y);
    let i = first_cover(path, w, x, y);
    assert(covers(path[i], w, x, y));
    assert(after.tiles.at(x, y) == road_tile(
        path,
        w,
        i,
        id,
        alts[cell_number(path, w, i, x, y)],
    ));
}

/// The rim of a castle is closed: walls and towers run all around it and part at its front only.
pub proof fn law_castle_rim_is_closed(
    before: Site,
    after: Site,
    id: Id,
    aabr: Aabr,
    offset: int,
    seed: u32,
    alt: i32,
    x: int,
    y: int,
)
    requires
        is_castle(before, after, id, aabr, offset, seed, alt),
        castle_fits(aabr, offset),
        aabr.holds(x, y),
        !in_court(aabr, x, y),
        on_grid(x, y),
    ensures
        after.tiles.at(x, y).plot == Some(id),
        after.tiles.at(x, y).spec_is_obstacle(),
        ({
            let kind = after.tiles.at(x, y).kind;
            kind is Wall || kind is Tower || (kind is Gate && y == aabr.min.y)
        }),
{
}

/// Plazas that were far enough from each other stay so when one more is made where all others are
/// far enough away.
pub proof fn law_plazas_stay_apart(
    before: Site,
    after: Site,
    id: Id,
    pos: Vec2,
    radius: i32,
    seed: u32,
    alt: i32,
)
    requires
        before.wf(),
        before.plazas_apart(),
        before.plazas_far_from(pos, radius as int),
        radius >= 1,
        is_plaza_laid(before, after, id, pos, radius, seed, alt),
    ensures
        after.plazas_apart(),
{
    let n = before.plazas@.len() as int;
    assert forall|k: int| 0 <= k < before.plots@.len() implies after.plots@[k]
        == #[trigger] before.plots@[k] by {
        assert(after.plots@.take(before.plots@.len() as int)[k] == before.plots@[k]);
    }
    assert forall|i: int, j: int| 0 <= i < j < after.plazas@.len() implies is_far_enough(
        after.plot_of(#[trigger] after.plazas@[i]).root_tile.distance_squared_to(
            after.plot_of(#[trigger] after.plazas@[j]).root_tile,
        ),
        1,
    ) by {
        assert(after.plazas@[i] == before.plazas@[i]);
        if j < n {
            assert(after.plazas@[j] == before.plazas@[j]);
        } else {
            let d = 13 + 8 * radius;
            assert(d * d >= 21 * 21) by (nonlinear_arith)
                requires
                    d >= 21,
            ;
            assert(is_far_enough(
                before.plot_of(before.plazas@[i]).root_tile.distance_squared_to(pos),
                radius as int,
            ));
        }
    }
}

/// Plazas that are far enough from each other share no tile.
pub proof fn law_plazas_do_not_overlap(
    old_pos: Vec2,
    old_radius: int,
    pos: Vec2,
    radius: int,
    x: int,
    y: int,
)
    requires
        1 <= old_radius <= 3,
        1 <= radius <= 3,
        is_far_enough(old_pos.distance_squared_to(pos), radius),
        old_pos.offset_fits(-4, -4) && old_pos.offset_fits(4, 4),
        pos.offset_fits(-4, -4) && pos.offset_fits(4, 4),
    ensures
        !(plaza_area(old_pos, old_radius).holds(x, y) && plaza_area(pos, radius).holds(x, y)),
{
    if plaza_area(old_pos, old_radius).holds(x, y) && plaza_area(pos, radius).holds(x, y) {
        let dx = old_pos.x - pos.x;
        let dy = old_pos.y - pos.y;
        let most = 3 + radius;
        assert(-most <= dx <= most && -most <= dy <= most);
        assert(dx * dx + dy * dy <= 2 * (most * most)) by (nonlinear_arith)
            requires
                -most <= dx <= most,
                -most <= dy <= most,
        ;
        assert(1600 * (2 * (most * most)) <= 289 * ((13 + 8 * radius) * (13 + 8 * radius)))
            by (nonlinear_arith)
            requires
                most == 3 + radius,
                radius == 1 || radius == 2 || radius == 3,
        ;
    }
}

/// No town has more than one castle, one airship dock, two taverns and one temple, and a city that
/// is not large has neither airship dock nor tavern.
pub proof fn law_towns_keep_their_quotas(town: Town)
    requires
        town.wf(),
    ensures
        count_of(town.site.plots@, |k: PlotKind| k is Castle) <= 1,
        count_of(town.site.plots@, |k: PlotKind| k is AirshipDock) <= 1,
        count_of(town.site.plots@, |k: PlotKind| k is Tavern) <= 2,
        count_of(town.site.plots@, |k: PlotKind| k is DesertCityTemple) <= 1,
        town.kind matches TownKind::City { large: false, .. } ==> count_of(
            town.site.plots@,
            |k: PlotKind| k is AirshipDock,
        ) == 0 && count_of(town.site.plots@, |k: PlotKind| k is Tavern) == 0,
{
    if town.kind matches TownKind::City { large: false, .. } {
        let plots = town.site.plots@;
        if count_of(plots, |k: PlotKind| k is AirshipDock) > 0 {
            lemma_counted_plots_exist(plots, |k: PlotKind| k is AirshipDock);
        }
        if count_of(plots, |k: PlotKind| k is Tavern) > 0 {
            lemma_counted_plots_exist(plots, |k: PlotKind| k is Tavern);
        }
    }
}

/// A town has only plots of the kinds that belong to it.
pub proof fn law_towns_hold_their_kinds(town: Town, i: int)
    requires
        town.wf(),
        0 <= i < town.site.plots@.len(),
    ensures
        town.kind.may_hold(town.site.plots@[i].kind),
{
}

/// The plazas and roads of a town are listed in order, once each, and nothing else is.
pub proof fn law_towns_list_plazas_and_roads(town: Town)
    requires
        town.wf(),
    ensures
        lists_all(town.site.plazas@, town.site.plots@, |k: PlotKind| k is Plaza),
        lists_all(town.site.roads@, town.site.plots@, |k: PlotKind| k is Road),
{
}

/// Not counting roads, a town has at most one plot for each of its rounds, one more for the first
/// plaza and one more for a building in the middle. Its buildings alone are at most one for each
/// round and one in the middle. It has at most two roads for each plaza.
pub proof fn law_towns_are_bounded(town: Town)
    requires
        town.wf(),
    ensures
        count_of(town.site.plots@, |k: PlotKind| !(k is Road)) <= town.rounds + 1
            + town.kind.centre_count(),
        count_of(town.site.plots@, |k: PlotKind| k.spec_has_structure()) <= town.rounds
            + town.kind.centre_count(),
        town.site.roads@.len() <= ROADS_PER_PLAZA * town.site.plazas@.len(),
{
}

/// Once its phase is over, the building in the middle is there, and it is the only one of its kind.
pub proof fn law_towns_have_one_centre(town: Town, i: int)
    requires
        town.wf(),
        town.kind.spec_centre() is Some,
        !town.is_early(),
    ensures
        town.centre is Some,
        (town.centre->0).idx < town.site.plots@.len(),
        town.site.plot_of(town.centre->0).kind == (town.kind.spec_centre()->0).0,
        0 <= i < town.site.plots@.len() && town.site.plots@[i].kind == (
        town.kind.spec_centre()->0).0 ==> i == (town.centre->0).idx,
{
}

/// What is about to be raised has a door, and beside the door there is a road.
pub proof fn law_doors_lead_to_roads(town: Town)
    requires
        town.wf(),
        town.phase is Raise,
    ensures
        ({
            let door = town.phase->door;
            let dir = town.phase->dir;
            &&& abs_int(dir.x as int) + abs_int(dir.y as int) == 1
            &&& town.site.tiles.at(door.x + dir.x, door.y + dir.y).spec_is_road()
        }),
{
}

/// A town without a plaza has no building, but for one in the middle.
pub proof fn law_no_buildings_without_plazas(town: Town, i: int)
    requires
        town.wf(),
        town.site.plazas@.len() == 0,
        0 <= i < town.site.plots@.len(),
    ensures
        town.centre is Some && (town.centre->0).idx == i,
{
}

/// The plazas of a town are never nearer to each other than the smallest plaza allows.
pub proof fn law_town_plazas_are_apart(town: Town)
    requires
        town.wf(),
    ensures
        town.site.plazas_apart(),
{
}

/// The first building of a city is a workshop, whatever else has been built since.
pub proof fn law_first_building_is_a_workshop(town: Town, i: int)
    requires
        town.wf(),
        town.kind is City,
        is_first_building(town.site.plots@, i),
    ensures
        town.site.plots@[i].kind is Workshop,
{
}

/// In a town of which every building was raised on a clear area, no two buildings were built on
/// the same tile.
pub proof fn law_buildings_share_no_tile(town: Town, i: int, j: int, p: Vec2)
    requires
        town.wf(),
        town.undisturbed(),
        0 <= i < j < town.site.plots@.len(),
        town.site.plots@[i].kind.spec_has_structure(),
        town.site.plots@[j].kind.spec_has_structure(),
    ensures
        !(town.site.plots@[i].tiles@.contains(p) && town.site.plots@[j].tiles@.contains(p)),
{
    if town.site.is_built_on(i, p) && town.site.is_built_on(j, p) {
    }
}

/// In such a town the building in the middle keeps all tiles that are at least three tiles from
/// its edge.
pub proof fn law_centre_keeps_its_inner_tiles(town: Town, x: int, y: int)
    requires
        town.wf(),
        town.undisturbed(),
        town.centre is Some,
        middle_area((town.kind.spec_centre()->0).1 - 3).holds(x, y),
    ensures
        town.site.tiles.at(x, y).plot == town.centre,
        town.site.tiles.at(x, y).kind is Building,
{
    assert(town.is_centre_tile(x, y));
}

/// As long as a city has no workshop, every lot builds one, and there is nothing but plazas and
/// roads.
pub proof fn law_workshops_come_first(town: Town, lot: u32)
    requires
        town.wf(),
        town.kind is City,
        count_of(town.site.plots@, |k: PlotKind| k is Workshop) == 0,
    ensures
        town.lot_build(lot) == Some(Build::Workshop),
        forall|i: int|
            0 <= i < town.site.plots@.len() ==> (#[trigger] town.site.plots@[i]).kind is Plaza
                || town.site.plots@[i].kind is Road,
{
}

/// The answers that a town can still take, of which every answer leaves fewer, run out when it is
/// done and not before.
pub proof fn law_towns_end(town: Town)
    requires
        town.wf(),
    ensures
        town.steps_left() >= 0,
        town.steps_left() == 0 <==> town.phase is Done,
        town.steps_left() <= 5 * town.left + 8,
{
}

/// On ground that is not left to nature nothing warps, no tree grows and no path runs.
pub proof fn law_nothing_grows_on_built_ground(site: Site, wpos: Vec2, rules: SpawnRules)
    requires
        site.is_spawn_rules(wpos, rules),
        !site.tiles.at(
            tile_of_block(site.origin.x as int, wpos.x as int),
            tile_of_block(site.origin.y as int, wpos.y as int),
        ).spec_is_natural(),
    ensures
        rules.warp_squared == Some(0i32),
        !rules.trees,
        !rules.paths,
{
    let cx = tile_of_block(site.origin.x as int, wpos.x as int);
    let cy = tile_of_block(site.origin.y as int, wpos.y as int);
    law_tile_of_block_holds_it(site.origin.x as int, wpos.x as int);
    law_tile_of_block_holds_it(site.origin.y as int, wpos.y as int);
    assert(site.is_built_near(cx, cy, cx, cy));
    assert(distance_to_tile_squared(site.origin, cx, cy, wpos) == 0) by {
        assert(0int * 0int == 0) by (nonlinear_arith);
    }
    let d = rules.warp_squared->0;
    let (x, y) = choose|x: int, y: int| #[trigger]
        site.is_built_near(cx, cy, x, y) && d == distance_to_tile_squared(site.origin, x, y, wpos);
    lemma_distance_is_positive(site.origin, x, y, wpos);
}

proof fn lemma_distance_is_positive(origin: Vec2, x: int, y: int, wpos: Vec2)
    ensures
        distance_to_tile_squared(origin, x, y, wpos) >= 0,
{
    let bx = block_of_tile(origin.x as int, x);
    let by = block_of_tile(origin.y as int, y);
    let dx = clamp_int(wpos.x as int, bx, bx + TILE_SIZE - 1) - wpos.x;
    let dy = clamp_int(wpos.y as int, by, by + TILE_SIZE - 1) - wpos.y;
    assert(dx * dx + dy * dy >= 0) by (nonlinear_arith);
}

/// Where nothing is built on the tile of a position and on those around it, everything may spawn.
pub proof fn law_wild_ground_is_free(site: Site, wpos: Vec2, rules: SpawnRules)
    requires
        site.is_spawn_rules(wpos, rules),
        forall|x: int, y: int|
            !(#[trigger] site.is_built_near(
                tile_of_block(site.origin.x as int, wpos.x as int),
                tile_of_block(site.origin.y as int, wpos.y as int),
                x,
                y,
            )),
    ensures
        rules.warp_squared is None,
        rules.trees,
        rules.paths,
        rules.waypoints,
{
}

/// A bridge that is no less wide than nothing covers both tiles that it ends on.
pub proof fn law_bridges_cover_their_ends(start: Vec2, end: Vec2, orth: Vec2, width: int)
    requires
        0 <= orth.x <= 1,
        0 <= orth.y <= 1,
        0 <= width <= 0x2000_0000,
        -0x4000_0000 <= start.x <= 0x4000_0000,
        -0x4000_0000 <= start.y <= 0x4000_0000,
        -0x4000_0000 <= end.x <= 0x4000_0000,
        -0x4000_0000 <= end.y <= 0x4000_0000,
    ensures
        span(start, end, orth, width).holds(start.x as int, start.y as int),
        span(start, end, orth, width).holds(end.x as int, end.y as int),
{
    assert(0 <= orth.x * width <= width && 0 <= orth.y * width <= width) by (nonlinear_arith)
        requires
            0 <= orth.x <= 1,
            0 <= orth.y <= 1,
            0 <= width,
    ;
}

/// The roads onto a bridge start beside the bridge, not on it.
pub proof fn law_approaches_start_beside_bridges(aabr: Aabr, dir: Dir)
    ensures
        ({
            let ahead = dir.side_point(aabr, center_tile(aabr));
            let behind = dir.spec_opposite().side_point(aabr, center_tile(aabr));
            &&& !aabr.holds(ahead.x + dir.step().x, ahead.y + dir.step().y)
            &&& !aabr.holds(behind.x - dir.step().x, behind.y - dir.step().y)
        }),
{
}

/// In one column of a road bed there is at most one lamp.
pub proof fn law_one_lamp_per_column(
    classes: Seq<BlockClass>,
    edits: Seq<BlockEdit>,
    lamp_post: bool,
    i: int,
    j: int,
)
    requires
        edits.len() == classes.len(),
        forall|k: int|
            0 <= k < edits.len() ==> (#[trigger] edits[k]) == road_edit(
                classes[k],
                is_underground(classes, k),
                lamp_post,
            ),
        0 <= i < j < edits.len(),
    ensures
        !(edits[i] == BlockEdit::VacateWith { lamp: true } && edits[j] == BlockEdit::VacateWith {
            lamp: true,
        }),
{
    assert(edits[i] == road_edit(classes[i], is_underground(classes, i), lamp_post));
    assert(edits[j] == road_edit(classes[j], is_underground(classes, j), lamp_post));
    if is_surface(classes[i]) {
        assert(!is_underground(classes, j));
    }
}

/// A plot with a block in a chunk shows in that chunk, unless it is a road or a plaza.
pub proof fn law_plots_show_where_they_stand(site: Site, chunk: Vec2, bx: int, by: int)
    requires
        chunk.x <= bx < chunk.x + CHUNK_SIZE,
        chunk.y <= by < chunk.y + CHUNK_SIZE,
        ({
            let tile = site.tiles.at(
                tile_of_block(site.origin.x as int, bx),
                tile_of_block(site.origin.y as int, by),
            );
            tile.plot is Some && site.plot_of(tile.plot->0).kind.spec_has_structure()
        }),
    ensures
        ({
            let tile = site.tiles.at(
                tile_of_block(site.origin.x as int, bx),
                tile_of_block(site.origin.y as int, by),
            );
            site.shows(chunk, (tile.plot->0).idx as int)
        }),
{
    let x = tile_of_block(site.origin.x as int, bx);
    let y = tile_of_block(site.origin.y as int, by);
    let id = site.tiles.at(x, y).plot->0;
    assert(site.shown_tiles(chunk).holds(x, y));
    assert(site.shows_tile(chunk, id.idx as int, x, y));
}

/// Giant trees show in every chunk.
pub proof fn law_giant_trees_show_everywhere(site: Site, chunk: Vec2, ids: Seq<Id>, i: int)
    requires
        is_listing(ids, site.plots@.len(), |k: int| site.shows(chunk, k)),
        0 <= i < site.plots@.len(),
        site.plots@[i].kind is GiantTree,
    ensures
        ids.contains(Id { idx: i as usize }),
{
    let wanted = |k: int| site.shows(chunk, k);
    assert(wanted(i));
}

} // verus!
