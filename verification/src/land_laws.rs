//! What holds of tiles in the world, of surveys of the land, and of what a site lets happen.

use crate::coords::{block_of_tile, distance_to_tile_squared, tile_of_block};
use crate::geom::Vec2;
use crate::obstacles::{
    first_hazard_of, hazard_of, is_on_path, is_surveyed, surveyed_kind, Probe, TileSurvey,
};
use crate::plot::{Id, PlotKind};
use crate::rules::{is_listing, SpawnRules};
use crate::site::Site;
use crate::tile::{on_grid, HazardKind, Tile, TileGrid, TileKind};
use vstd::prelude::*;

verus! {

/// A tile is six blocks wide: a block lies in a tile if it is one of the six from the tile's
/// corner on, and tiles lie side by side from the origin.
pub proof fn law_tiles_are_six_blocks_wide(origin: int, tile: int, block: int)
    ensures
        tile_of_block(origin, block) == tile <==> origin + 6 * tile <= block < origin + 6 * tile + 6,
        block_of_tile(origin, tile) == origin + 6 * tile,
{
}

/// Moving the origin and a block by the same step leaves the tile that the block lies in.
pub proof fn law_tiles_move_with_the_origin(origin: int, block: int, step: int)
    ensures
        tile_of_block(origin + step, block + step) == tile_of_block(origin, block),
{
}

/// The tiles that are kept are those from -256 up to 271 along either axis.
pub proof fn law_grid_is_a_square(x: int, y: int)
    ensures
        on_grid(x, y) <==> -256 <= x <= 271 && -256 <= y <= 271,
        on_grid(x, y) == on_grid(y, x),
{
}

/// What a tile can be used for depends on what covers it alone: nothing is both natural and a
/// road, what is a road is no obstacle, and obstacles are the hazards and the buildings.
pub proof fn law_uses_of_tiles(tile: Tile, other: Tile)
    ensures
        tile.spec_is_empty() <==> tile.kind == TileKind::Empty,
        tile.spec_is_natural() <==> tile.kind == TileKind::Empty || tile.kind is Hazard || tile.kind
            == TileKind::AdletStronghold,
        tile.spec_is_road() <==> tile.kind == TileKind::Plaza || tile.kind == TileKind::Path
            || tile.kind is Road,
        tile.spec_is_obstacle() <==> !(tile.kind == TileKind::Empty || tile.kind
            == TileKind::Field || tile.kind == TileKind::Plaza || tile.kind == TileKind::Path
            || tile.kind is Road || tile.kind == TileKind::Bridge),
        tile.spec_is_building() <==> tile.spec_is_obstacle() && !(tile.kind is Hazard),
        !(tile.spec_is_natural() && tile.spec_is_road()),
        !(tile.spec_is_obstacle() && tile.spec_is_road()),
        tile.kind == other.kind ==> tile.spec_is_empty() == other.spec_is_empty()
            && tile.spec_is_natural() == other.spec_is_natural() && tile.spec_is_road()
            == other.spec_is_road() && tile.spec_is_building() == other.spec_is_building()
            && tile.spec_is_obstacle() == other.spec_is_obstacle(),
{
}

/// The distance of a position from a tile is that from the nearest block of the tile.
pub proof fn law_distance_is_to_the_nearest_block(origin: Vec2, x: int, y: int, wpos: Vec2)
    ensures
        forall|bx: int, by: int|
            #![trigger tile_of_block(origin.x as int, bx), tile_of_block(origin.y as int, by)]
            tile_of_block(origin.x as int, bx) == x && tile_of_block(origin.y as int, by) == y
                ==> distance_to_tile_squared(origin, x, y, wpos) <= (bx - wpos.x) * (bx
                - wpos.x) + (by - wpos.y) * (by - wpos.y),
        exists|bx: int, by: int|
            #![trigger tile_of_block(origin.x as int, bx), tile_of_block(origin.y as int, by)]
            tile_of_block(origin.x as int, bx) == x && tile_of_block(origin.y as int, by) == y
                && distance_to_tile_squared(origin, x, y, wpos) == (bx - wpos.x) * (bx
                - wpos.x) + (by - wpos.y) * (by - wpos.y),
{
    let x0 = origin.x + 6 * x;
    let y0 = origin.y + 6 * y;
    let cx = if wpos.x < x0 {
        x0
    } else if wpos.x > x0 + 5 {
        x0 + 5
    } else {
        wpos.x as int
    };
    let cy = if wpos.y < y0 {
        y0
    } else if wpos.y > y0 + 5 {
        y0 + 5
    } else {
        wpos.y as int
    };
    assert(distance_to_tile_squared(origin, x, y, wpos) == (cx - wpos.x) * (cx - wpos.x) + (cy
        - wpos.y) * (cy - wpos.y));
    assert(tile_of_block(origin.x as int, cx) == x && tile_of_block(origin.y as int, cy) == y);
    assert forall|bx: int, by: int|
        #![trigger tile_of_block(origin.x as int, bx), tile_of_block(origin.y as int, by)]
        tile_of_block(origin.x as int, bx) == x && tile_of_block(origin.y as int, by)
            == y implies distance_to_tile_squared(
        origin,
        x,
        y,
        wpos,
    ) <= (bx - wpos.x) * (bx - wpos.x) + (by - wpos.y) * (by - wpos.y) by {
        lemma_nearer_is_smaller(cx - wpos.x, bx - wpos.x);
        lemma_nearer_is_smaller(cy - wpos.y, by - wpos.y);
    }
}

proof fn lemma_nearer_is_smaller(a: int, b: int)
    requires
        a == 0 || 0 < a <= b || b <= a < 0,
    ensures
        a * a <= b * b,
{
    assert(a * a <= b * b) by (nonlinear_arith)
        requires
            a == 0 || 0 < a <= b || b <= a < 0,
    ;
}

/// Moving the origin of a site and a position by the same step leaves the distance to a tile.
pub proof fn law_distance_moves_with_the_origin(
    origin: Vec2,
    moved: Vec2,
    wpos: Vec2,
    wpos_moved: Vec2,
    x: int,
    y: int,
)
    requires
        moved.x - origin.x == wpos_moved.x - wpos.x,
        moved.y - origin.y == wpos_moved.y - wpos.y,
    ensures
        distance_to_tile_squared(origin, x, y, wpos) == distance_to_tile_squared(
            moved,
            x,
            y,
            wpos_moved,
        ),
{
}

/// Water, also where there is no land at all, is a hazard wherever it is near, and steep ground is
/// one everywhere else.
pub proof fn law_hazards_are_water_and_slopes(probe: Probe)
    ensures
        probe.near_water == Some(true) || probe.near_water is None ==> hazard_of(probe) == Some(
            HazardKind::Water,
        ),
        probe.near_water == Some(false) && probe.steep is None ==> hazard_of(probe) is None,
        probe.near_water == Some(false) && probe.steep is Some ==> hazard_of(probe) == Some(
            HazardKind::Hill { gradient_bits: probe.steep->0 },
        ),
{
}

/// The first probe that shows a hazard decides; without one there is none.
pub proof fn law_first_hazard_counts(probes: Seq<Probe>, k: int)
    ensures
        0 <= k < probes.len() && hazard_of(probes[k]) is Some && (forall|j: int|
            0 <= j < k ==> hazard_of(#[trigger] probes[j]) is None) ==> first_hazard_of(probes)
            == hazard_of(probes[k]),
        (forall|j: int| 0 <= j < probes.len() ==> hazard_of(#[trigger] probes[j]) is None)
            <==> first_hazard_of(probes) is None,
    decreases probes.len(),
{
    if probes.len() > 0 {
        let rest = probes.skip(1);
        assert forall|j: int| 0 <= j < rest.len() implies rest[j] == #[trigger] probes[j + 1] by {}
        law_first_hazard_counts(rest, k - 1);
        if hazard_of(probes[0]) is None {
            if forall|j: int| 0 <= j < probes.len() ==> hazard_of(#[trigger] probes[j]) is None {
                assert forall|j: int| 0 <= j < rest.len() implies hazard_of(
                    #[trigger] rest[j],
                ) is None by {
                    assert(rest[j] == probes[j + 1]);
                }
            }
            if forall|j: int| 0 <= j < rest.len() ==> hazard_of(#[trigger] rest[j]) is None {
                assert forall|j: int| 0 <= j < probes.len() implies hazard_of(
                    #[trigger] probes[j],
                ) is None by {
                    if j > 0 {
                        assert(rest[j - 1] == probes[j]);
                    }
                }
            }
            if 0 < k < probes.len() && (forall|j: int|
                0 <= j < k ==> hazard_of(#[trigger] probes[j]) is None) {
                assert forall|j: int| 0 <= j < k - 1 implies hazard_of(
                    #[trigger] rest[j],
                ) is None by {
                    assert(rest[j] == probes[j + 1]);
                }
                assert(rest[k - 1] == probes[k]);
            }
        }
    }
}

/// Whether no probe of a survey shows a hazard.
spec fn is_dry_and_flat(survey: TileSurvey) -> bool {
    forall|k: int|
        0 <= k < survey.probes@.len() ==> (#[trigger] survey.probes@[k]).near_water == Some(false)
            && survey.probes@[k].steep is None
}

proof fn lemma_dry_and_flat(survey: TileSurvey)
    ensures
        is_dry_and_flat(survey) <==> first_hazard_of(survey.probes@) is None,
{
    law_first_hazard_counts(survey.probes@, 0);
    if is_dry_and_flat(survey) {
        assert forall|j: int| 0 <= j < survey.probes@.len() implies hazard_of(
            #[trigger] survey.probes@[j],
        ) is None by {}
    } else {
        let k = choose|k: int|
            0 <= k < survey.probes@.len() && !((#[trigger] survey.probes@[k]).near_water == Some(
                false,
            ) && survey.probes@[k].steep is None);
        assert(hazard_of(survey.probes@[k]) is Some);
    }
}

/// What the surveys from some number on tell nothing about is as the surveys before left it.
proof fn lemma_silent_surveys(
    origin: Vec2,
    surveys: Seq<TileSurvey>,
    from: int,
    x: int,
    y: int,
    start: TileKind,
)
    requires
        0 <= from <= surveys.len(),
        forall|j: int|
            from <= j < surveys.len() ==> !((#[trigger] surveys[j]).tile.x == x && surveys[j].tile.y
                == y && is_on_path(origin, surveys[j])),
        forall|j: int|
            from <= j < surveys.len() ==> is_dry_and_flat(#[trigger] surveys[j]) || !((x
                == surveys[j].tile.x - 1 || x == surveys[j].tile.x - 2) && (y == surveys[j].tile.y
                - 1 || y == surveys[j].tile.y - 2)),
    ensures
        surveyed_kind(origin, surveys, x, y, start) == surveyed_kind(
            origin,
            surveys.take(from),
            x,
            y,
            start,
        ),
    decreases surveys.len(),
{
    if from == surveys.len() {
        assert(surveys.take(from) =~= surveys);
    } else {
        let rest = surveys.drop_last();
        let last = surveys.len() - 1;
        assert(surveys[last] == surveys.last());
        lemma_dry_and_flat(surveys.last());
        assert forall|j: int| from <= j < rest.len() implies rest[j] == #[trigger] surveys[j] by {}
        lemma_silent_surveys(origin, rest, from, x, y, start);
        assert(rest.take(from) =~= surveys.take(from));
    }
}

/// A tile is marked as a path if one of its blocks is nearer to a path than that path reaches, and
/// no survey made later finds a hazard just above and to the right of it. The path's position is
/// one in the world, as are the blocks of the tile, counted from the origin of the site.
pub proof fn law_paths_mark_their_tiles(
    origin: Vec2,
    before: TileGrid,
    after: TileGrid,
    surveys: Seq<TileSurvey>,
    i: int,
    bx: int,
    by: int,
)
    requires
        is_surveyed(origin, before, after, surveys),
        0 <= i < surveys.len(),
        on_grid(surveys[i].tile.x as int, surveys[i].tile.y as int),
        origin.x + 6 * surveys[i].tile.x <= bx < origin.x + 6 * surveys[i].tile.x + 6,
        origin.y + 6 * surveys[i].tile.y <= by < origin.y + 6 * surveys[i].tile.y + 6,
        surveys[i].path matches Some(near) && (bx - near.wpos.x) * (bx - near.wpos.x) + (by
            - near.wpos.y) * (by - near.wpos.y) < near.reach_squared,
        forall|j: int|
            i < j < surveys.len() ==> !(2 >= (#[trigger] surveys[j]).tile.x - surveys[i].tile.x >= 1
                && 2 >= surveys[j].tile.y - surveys[i].tile.y >= 1) || (forall|k: int|
                0 <= k < surveys[j].probes@.len() ==> (
                #[trigger] surveys[j].probes@[k]).near_water == Some(false)
                    && surveys[j].probes@[k].steep is None),
    ensures
        after.at(surveys[i].tile.x as int, surveys[i].tile.y as int).kind == TileKind::Path,
{
    let x = surveys[i].tile.x as int;
    let y = surveys[i].tile.y as int;
    let near = surveys[i].path->0;
    law_distance_is_to_the_nearest_block(origin, x, y, near.wpos);
    assert(tile_of_block(origin.x as int, bx) == x && tile_of_block(origin.y as int, by) == y);
    assert(is_on_path(origin, surveys[i]));
    lemma_path_stays(origin, surveys, i, before.at(x, y).kind);
}

proof fn lemma_path_stays(origin: Vec2, surveys: Seq<TileSurvey>, i: int, start: TileKind)
    requires
        0 <= i < surveys.len(),
        is_on_path(origin, surveys[i]),
        forall|j: int|
            i < j < surveys.len() ==> !(2 >= (#[trigger] surveys[j]).tile.x - surveys[i].tile.x >= 1
                && 2 >= surveys[j].tile.y - surveys[i].tile.y >= 1) || is_dry_and_flat(surveys[j]),
    ensures
        surveyed_kind(
            origin,
            surveys,
            surveys[i].tile.x as int,
            surveys[i].tile.y as int,
            start,
        ) is Path,
    decreases surveys.len(),
{
    let last = surveys.len() - 1;
    assert(surveys[last] == surveys.last());
    if i < last {
        lemma_dry_and_flat(surveys.last());
        let rest = surveys.drop_last();
        assert forall|j: int| 0 <= j < rest.len() implies rest[j] == #[trigger] surveys[j] by {}
        lemma_path_stays(origin, rest, i, start);
    }
}

/// A path whose nearest position lies in a tile, wherever the site is, marks that tile however
/// short its reach is.
pub proof fn law_paths_mark_the_tile_they_cross(
    origin: Vec2,
    before: TileGrid,
    after: TileGrid,
    surveys: Seq<TileSurvey>,
    i: int,
)
    requires
        is_surveyed(origin, before, after, surveys),
        0 <= i < surveys.len(),
        on_grid(surveys[i].tile.x as int, surveys[i].tile.y as int),
        surveys[i].path matches Some(near) && near.reach_squared > 0 && tile_of_block(
            origin.x as int,
            near.wpos.x as int,
        ) == surveys[i].tile.x && tile_of_block(origin.y as int, near.wpos.y as int)
            == surveys[i].tile.y,
        forall|j: int|
            i < j < surveys.len() ==> !(2 >= (#[trigger] surveys[j]).tile.x - surveys[i].tile.x >= 1
                && 2 >= surveys[j].tile.y - surveys[i].tile.y >= 1) || (forall|k: int|
                0 <= k < surveys[j].probes@.len() ==> (
                #[trigger] surveys[j].probes@[k]).near_water == Some(false)
                    && surveys[j].probes@[k].steep is None),
    ensures
        after.at(surveys[i].tile.x as int, surveys[i].tile.y as int).kind == TileKind::Path,
{
    let near = surveys[i].path->0;
    assert(0int * 0int + 0int * 0int == 0) by (nonlinear_arith);
    law_paths_mark_their_tiles(
        origin,
        before,
        after,
        surveys,
        i,
        near.wpos.x as int,
        near.wpos.y as int,
    );
}

/// A hazard makes the four tiles below and to the left of the surveyed tile unfit, by the first
/// probe that shows one, unless a later survey tells otherwise of them.
pub proof fn law_hazards_spoil_four_tiles(
    origin: Vec2,
    before: TileGrid,
    after: TileGrid,
    surveys: Seq<TileSurvey>,
    i: int,
    k: int,
    dx: int,
    dy: int,
)
    requires
        is_surveyed(origin, before, after, surveys),
        0 <= i < surveys.len(),
        1 <= dx <= 2,
        1 <= dy <= 2,
        on_grid(surveys[i].tile.x - dx, surveys[i].tile.y - dy),
        0 <= k < surveys[i].probes@.len(),
        surveys[i].probes@[k].near_water != Some(false) || surveys[i].probes@[k].steep is Some,
        forall|j: int|
            0 <= j < k ==> (#[trigger] surveys[i].probes@[j]).near_water == Some(false)
                && surveys[i].probes@[j].steep is None,
        forall|j: int|
            i < j < surveys.len() ==> (#[trigger] surveys[j]).path is None || !(surveys[j].tile.x
                == surveys[i].tile.x - dx && surveys[j].tile.y == surveys[i].tile.y - dy),
        forall|j: int|
            i < j < surveys.len() ==> !(2 >= (#[trigger] surveys[j]).tile.x - surveys[i].tile.x + dx
                >= 1 && 2 >= surveys[j].tile.y - surveys[i].tile.y + dy >= 1) || (forall|m: int|
                0 <= m < surveys[j].probes@.len() ==> (
                #[trigger] surveys[j].probes@[m]).near_water == Some(false)
                    && surveys[j].probes@[m].steep is None),
    ensures
        ({
            let there = after.at(surveys[i].tile.x - dx, surveys[i].tile.y - dy);
            let probe = surveys[i].probes@[k];
            there.kind == TileKind::Hazard(
                if probe.near_water == Some(false) {
                    HazardKind::Hill { gradient_bits: probe.steep->0 }
                } else {
                    HazardKind::Water
                },
            )
        }),
{
    let x = surveys[i].tile.x - dx;
    let y = surveys[i].tile.y - dy;
    let start = before.at(x, y).kind;
    assert forall|j: int| i + 1 <= j < surveys.len() implies is_dry_and_flat(
        #[trigger] surveys[j],
    ) || !((x == surveys[j].tile.x - 1 || x == surveys[j].tile.x - 2) && (y == surveys[j].tile.y - 1
        || y == surveys[j].tile.y - 2)) by {}
    lemma_silent_surveys(origin, surveys, i + 1, x, y, start);
    let upto = surveys.take(i + 1);
    assert(upto.last() == surveys[i]);
    law_first_hazard_counts(surveys[i].probes@, k);
    law_hazards_are_water_and_slopes(surveys[i].probes@[k]);
    assert forall|j: int| 0 <= j < k implies hazard_of(
        #[trigger] surveys[i].probes@[j],
    ) is None by {}
}

/// A tile of which no survey tells anything stays as it is: none made at that tile found a path so
/// near that it reaches one of its blocks, and none made just above and to the right of it found a
/// hazard.
pub proof fn law_surveys_leave_other_tiles(
    origin: Vec2,
    before: TileGrid,
    after: TileGrid,
    surveys: Seq<TileSurvey>,
    x: int,
    y: int,
)
    requires
        is_surveyed(origin, before, after, surveys),
        forall|j: int|
            0 <= j < surveys.len() ==> !((#[trigger] surveys[j]).tile.x == x && surveys[j].tile.y
                == y) || (surveys[j].path matches Some(near) ==> forall|bx: int, by: int|
                #![trigger tile_of_block(origin.x as int, bx), tile_of_block(origin.y as int, by)]
                tile_of_block(origin.x as int, bx) == x && tile_of_block(origin.y as int, by) == y
                    ==> (bx - near.wpos.x) * (bx - near.wpos.x) + (by - near.wpos.y) * (
                by - near.wpos.y) >= near.reach_squared),
        forall|j: int|
            0 <= j < surveys.len() ==> !(2 >= (#[trigger] surveys[j]).tile.x - x >= 1 && 2
                >= surveys[j].tile.y - y >= 1) || (forall|k: int|
                0 <= k < surveys[j].probes@.len() ==> (
                #[trigger] surveys[j].probes@[k]).near_water == Some(false)
                    && surveys[j].probes@[k].steep is None),
    ensures
        after.at(x, y) == before.at(x, y),
{
    let start = before.at(x, y).kind;
    assert forall|j: int| 0 <= j < surveys.len() implies !((#[trigger] surveys[j]).tile.x == x
        && surveys[j].tile.y == y && is_on_path(origin, surveys[j])) by {
        if surveys[j].tile.x == x && surveys[j].tile.y == y && surveys[j].path is Some {
            law_distance_is_to_the_nearest_block(origin, x, y, (surveys[j].path->0).wpos);
        }
    }
    assert forall|j: int| 0 <= j < surveys.len() implies is_dry_and_flat(#[trigger] surveys[j])
        || !((x == surveys[j].tile.x - 1 || x == surveys[j].tile.x - 2) && (y == surveys[j].tile.y
        - 1 || y == surveys[j].tile.y - 2)) by {}
    lemma_silent_surveys(origin, surveys, 0, x, y, start);
    assert(surveys.take(0).len() == 0);
}

/// A survey changes neither the plot that a tile belongs to nor its altitude, and the bounds stay.
pub proof fn law_surveys_change_kinds_only(
    origin: Vec2,
    before: TileGrid,
    after: TileGrid,
    surveys: Seq<TileSurvey>,
    x: int,
    y: int,
)
    requires
        is_surveyed(origin, before, after, surveys),
    ensures
        after.at(x, y).plot == before.at(x, y).plot,
        after.at(x, y).hard_alt == before.at(x, y).hard_alt,
        after.bounds == before.bounds,
        !(-256 <= x < 272 && -256 <= y < 272) ==> after.at(x, y) == before.at(x, y),
{
}

/// Moving a site and the paths around it by the same step leaves all that a survey marks.
pub proof fn law_surveys_move_with_the_origin(
    origin: Vec2,
    moved: Vec2,
    before: TileGrid,
    after: TileGrid,
    after_moved: TileGrid,
    surveys: Seq<TileSurvey>,
    surveys_moved: Seq<TileSurvey>,
    x: int,
    y: int,
)
    requires
        is_surveyed(origin, before, after, surveys),
        is_surveyed(moved, before, after_moved, surveys_moved),
        surveys.len() == surveys_moved.len(),
        forall|i: int|
            0 <= i < surveys.len() ==> {
                let a = #[trigger] surveys[i];
                let b = surveys_moved[i];
                &&& a.tile == b.tile
                &&& a.probes == b.probes
                &&& a.path is Some <==> b.path is Some
                &&& a.path is Some ==> {
                    &&& (b.path->0).wpos.x - (a.path->0).wpos.x == moved.x - origin.x
                    &&& (b.path->0).wpos.y - (a.path->0).wpos.y == moved.y - origin.y
                    &&& (b.path->0).reach_squared == (a.path->0).reach_squared
                }
            },
    ensures
        after.at(x, y) == after_moved.at(x, y),
{
    lemma_kinds_move_with_the_origin(
        origin,
        moved,
        surveys,
        surveys_moved,
        x,
        y,
        before.at(x, y).kind,
    );
}

proof fn lemma_kinds_move_with_the_origin(
    origin: Vec2,
    moved: Vec2,
    surveys: Seq<TileSurvey>,
    surveys_moved: Seq<TileSurvey>,
    x: int,
    y: int,
    start: TileKind,
)
    requires
        surveys.len() == surveys_moved.len(),
        forall|i: int|
            0 <= i < surveys.len() ==> {
                let a = #[trigger] surveys[i];
                let b = surveys_moved[i];
                &&& a.tile == b.tile
                &&& a.probes == b.probes
                &&& a.path is Some <==> b.path is Some
                &&& a.path is Some ==> {
                    &&& (b.path->0).wpos.x - (a.path->0).wpos.x == moved.x - origin.x
                    &&& (b.path->0).wpos.y - (a.path->0).wpos.y == moved.y - origin.y
                    &&& (b.path->0).reach_squared == (a.path->0).reach_squared
                }
            },
    ensures
        surveyed_kind(origin, surveys, x, y, start) == surveyed_kind(
            moved,
            surveys_moved,
            x,
            y,
            start,
        ),
    decreases surveys.len(),
{
    if surveys.len() > 0 {
        let last = surveys.len() - 1;
        let rest = surveys.drop_last();
        let rest_moved = surveys_moved.drop_last();
        assert(surveys[last] == surveys.last());
        assert(surveys_moved[last] == surveys_moved.last());
        if surveys.last().path is Some {
            law_distance_moves_with_the_origin(
                origin,
                moved,
                (surveys.last().path->0).wpos,
                (surveys_moved.last().path->0).wpos,
                surveys.last().tile.x as int,
                surveys.last().tile.y as int,
            );
        }
        assert forall|i: int| 0 <= i < rest.len() implies rest[i] == #[trigger] surveys[i]
            && rest_moved[i] == surveys_moved[i] by {}
        lemma_kinds_move_with_the_origin(origin, moved, rest, rest_moved, x, y, start);
    }
}

/// The ground warps by the distance to the nearest block of ground that is not left to nature, in
/// the tile of a position or next to it. Trees grow where there is no such ground, or just one tile
/// away; paths run everywhere but on it.
pub proof fn law_warp_is_the_distance_to_built_ground(
    site: Site,
    wpos: Vec2,
    rules: SpawnRules,
    bx: int,
    by: int,
)
    requires
        site.is_spawn_rules(wpos, rules),
        ({
            let kind = site.tiles.at(
                tile_of_block(site.origin.x as int, bx),
                tile_of_block(site.origin.y as int, by),
            ).kind;
            !(kind is Empty || kind is Hazard || kind is AdletStronghold)
        }),
        -1 <= tile_of_block(site.origin.x as int, bx) - tile_of_block(
            site.origin.x as int,
            wpos.x as int,
        ) <= 1,
        -1 <= tile_of_block(site.origin.y as int, by) - tile_of_block(
            site.origin.y as int,
            wpos.y as int,
        ) <= 1,
    ensures
        rules.warp_squared is Some,
        rules.warp_squared->0 <= (bx - wpos.x) * (bx - wpos.x) + (by - wpos.y) * (by - wpos.y),
        rules.trees <==> rules.warp_squared == Some(36i32),
        rules.paths <==> rules.warp_squared != Some(0i32),
        rules.waypoints,
{
    let cx = tile_of_block(site.origin.x as int, wpos.x as int);
    let cy = tile_of_block(site.origin.y as int, wpos.y as int);
    let x = tile_of_block(site.origin.x as int, bx);
    let y = tile_of_block(site.origin.y as int, by);
    assert(site.is_built_near(cx, cy, x, y));
    law_distance_is_to_the_nearest_block(site.origin, x, y, wpos);
}

/// If the ground warps by some distance, there is built ground just as far away, in the tile of the
/// position or next to it.
pub proof fn law_warp_has_a_cause(site: Site, wpos: Vec2, rules: SpawnRules)
    requires
        site.is_spawn_rules(wpos, rules),
        rules.warp_squared is Some,
    ensures
        exists|bx: int, by: int|
            #![trigger tile_of_block(site.origin.x as int, bx), tile_of_block(site.origin.y as int, by)]
            {
                let x = tile_of_block(site.origin.x as int, bx);
                let y = tile_of_block(site.origin.y as int, by);
                let kind = site.tiles.at(x, y).kind;
                &&& !(kind is Empty || kind is Hazard || kind is AdletStronghold)
                &&& -1 <= x - tile_of_block(site.origin.x as int, wpos.x as int) <= 1
                &&& -1 <= y - tile_of_block(site.origin.y as int, wpos.y as int) <= 1
                &&& rules.warp_squared->0 == (bx - wpos.x) * (bx - wpos.x) + (by - wpos.y) * (by
                    - wpos.y)
            },
{
    let cx = tile_of_block(site.origin.x as int, wpos.x as int);
    let cy = tile_of_block(site.origin.y as int, wpos.y as int);
    let d = rules.warp_squared->0;
    let (x, y) = choose|x: int, y: int| #[trigger]
        site.is_built_near(cx, cy, x, y) && d == distance_to_tile_squared(site.origin, x, y, wpos);
    law_distance_is_to_the_nearest_block(site.origin, x, y, wpos);
    let (bx, by) = choose|bx: int, by: int|
        #![trigger tile_of_block(site.origin.x as int, bx), tile_of_block(site.origin.y as int, by)]
        tile_of_block(site.origin.x as int, bx) == x && tile_of_block(site.origin.y as int, by)
            == y && distance_to_tile_squared(site.origin, x, y, wpos) == (bx
            - wpos.x) * (bx - wpos.x) + (by - wpos.y) * (by - wpos.y);
    assert(tile_of_block(site.origin.x as int, bx) == x);
    assert(tile_of_block(site.origin.y as int, by) == y);
}

/// The radius is six blocks for each tile that the bounds reach in the direction in which they
/// reach farthest, and thirty more, or a hundred and fifty more with a giant tree.
pub proof fn law_radius_is_the_farthest_reach(site: Site)
    ensures
        ({
            let b = site.tiles.bounds;
            let more = if exists|i: int|
                0 <= i < site.plots@.len() && (#[trigger] site.plots@[i]).kind
                    == PlotKind::GiantTree {
                150int
            } else {
                30int
            };
            let r = site.spec_radius() - more;
            &&& -r <= 6 * b.min.x <= r && -r <= 6 * b.min.y <= r
            &&& -r <= 6 * b.max.x <= r && -r <= 6 * b.max.y <= r
            &&& r == 6 * b.min.x || r == -6 * b.min.x || r == 6 * b.min.y || r == -6 * b.min.y || r
                == 6 * b.max.x || r == -6 * b.max.x || r == 6 * b.max.y || r == -6 * b.max.y
        }),
{
    if exists|i: int|
        0 <= i < site.plots@.len() && (#[trigger] site.plots@[i]).kind == PlotKind::GiantTree {
        assert(site.has_giant_tree());
    } else if site.has_giant_tree() {
        let i = choose|i: int|
            0 <= i < site.plots@.len() && (#[trigger] site.plots@[i]).kind is GiantTree;
        assert(site.plots@[i].kind == PlotKind::GiantTree);
    }
}

/// A listing names, in ascending order and once each, all that is wanted and nothing else.
pub proof fn law_listings_are_complete(ids: Seq<Id>, n: nat, wanted: spec_fn(int) -> bool)
    requires
        is_listing(ids, n, wanted),
        n <= usize::MAX,
    ensures
        forall|i: int, j: int|
            0 <= i < j < ids.len() ==> (#[trigger] ids[i]).idx < (#[trigger] ids[j]).idx,
        forall|k: int|
            0 <= k < n ==> (#[trigger] ids.contains(Id { idx: k as usize }) <==> wanted(k)),
        forall|i: int| 0 <= i < ids.len() ==> (#[trigger] ids[i]).idx < n,
{
    assert forall|k: int| 0 <= k < n implies (#[trigger] ids.contains(Id { idx: k as usize })
        <==> wanted(k)) by {
        if ids.contains(Id { idx: k as usize }) {
            let i = choose|i: int| 0 <= i < ids.len() && ids[i] == Id { idx: k as usize };
            assert(wanted(ids[i].idx as int));
        }
    }
}

/// The kinds of plots that have a say in what may spawn, and those that add entities.
pub proof fn law_plots_with_a_say(kind: PlotKind)
    ensures
        kind.spec_has_spawn_rules() <==> kind is Dungeon || kind == PlotKind::Gnarling || kind
            == PlotKind::Adlet || kind == PlotKind::SeaChapel || kind == PlotKind::Haniwa || kind
            == PlotKind::TerracottaPalace || kind == PlotKind::TerracottaHouse || kind
            == PlotKind::TerracottaYard,
        kind.spec_has_supplement() <==> kind is Dungeon || kind == PlotKind::Gnarling || kind
            == PlotKind::Adlet,
        kind.spec_has_supplement() ==> kind.spec_has_spawn_rules(),
{
}

/// What is told to be the hardest dungeon is one of the dungeons, and none is harder.
pub proof fn law_hardest_dungeon_is_the_hardest(site: Site, told: Option<u32>, i: int)
    requires
        site.is_hardest_dungeon(told),
        0 <= i < site.plots@.len(),
        site.plots@[i].kind is Dungeon,
    ensures
        told is Some,
        site.plots@[i].kind->difficulty <= told->0,
        exists|j: int|
            0 <= j < site.plots@.len() && (#[trigger] site.plots@[j]).kind == (PlotKind::Dungeon {
                difficulty: told->0,
            }),
{
    let j = choose|j: int|
        0 <= j < site.plots@.len() && (#[trigger] site.plots@[j]).kind is Dungeon && told->0
            == site.plots@[j].kind->difficulty;
    assert(site.plots@[j].kind == PlotKind::Dungeon { difficulty: told->0 });
}

/// A site without a dungeon is told to have none.
pub proof fn law_no_dungeon_no_difficulty(site: Site, told: Option<u32>)
    requires
        site.is_hardest_dungeon(told),
        forall|i: int|
            0 <= i < site.plots@.len() ==> !((#[trigger] site.plots@[i]).kind is Dungeon),
    ensures
        told is None,
{
}

} // verus!
