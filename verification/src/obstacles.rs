//! Marking the ground that cannot be built on before anything is laid out.

use crate::coords::distance_to_tile_squared;
use crate::geom::Vec2;
use crate::site::{tile_ok, Site};
use crate::tile::{on_grid, HazardKind, Tile, TileGrid, TileKind};
use vstd::prelude::*;

verus! {

/// How far from the middle of a site the land is surveyed, in tiles.
pub const SURVEY_RADIUS: u32 = 96;

/// How many positions are probed at and around the middle of each tile.
pub const SURVEY_PROBES: usize = 9;

/// What the land is like at one position.
#[derive(Clone, Copy, PartialEq, Eq, Debug)]
pub struct Probe {
    /// Whether water is near; nothing off the map.
    pub near_water: Option<bool>,
    /// The bits of the `f32` that says how steep the ground is, if it is too steep.
    pub steep: Option<u32>,
}

/// A path of the land that passes by.
#[derive(Clone, Copy, PartialEq, Eq, Debug)]
pub struct PathNear {
    /// The nearest position on the path.
    pub wpos: Vec2,
    /// The least square of a distance at which the path is out of reach.
    pub reach_squared: i64,
}

/// What was found out about the land at and around a tile.
#[derive(Debug)]
pub struct TileSurvey {
    pub tile: Vec2,
    /// The land at the middle of the tile and around it. The first probe to show a hazard counts.
    pub probes: Vec<Probe>,
    pub path: Option<PathNear>,
}

/// What hazard a probe shows: water, also off the map, before a slope.
pub open spec fn hazard_of(probe: Probe) -> Option<HazardKind> {
    if probe.near_water != Some(false) {
        Some(HazardKind::Water)
    } else {
        match probe.steep {
            Some(gradient_bits) => Some(HazardKind::Hill { gradient_bits }),
            None => None,
        }
    }
}

/// What hazard there is at a position, if any.
pub fn wpos_is_hazard(probe: Probe) -> (r: Option<HazardKind>)
    ensures
        r == hazard_of(probe),
{
    let near_water = match probe.near_water {
        Some(near) => near,
        None => true,
    };
    if near_water {
        Some(HazardKind::Water)
    } else {
        match probe.steep {
            Some(gradient_bits) => Some(HazardKind::Hill { gradient_bits }),
            None => None,
        }
    }
}

/// The hazard that the first probe to show one shows.
pub open spec fn first_hazard_of(probes: Seq<Probe>) -> Option<HazardKind>
    decreases probes.len(),
{
    if probes.len() == 0 {
        None
    } else {
        match hazard_of(probes[0]) {
            Some(hazard) => Some(hazard),
            None => first_hazard_of(probes.skip(1)),
        }
    }
}

fn first_hazard(probes: &Vec<Probe>) -> (r: Option<HazardKind>)
    ensures
        r == first_hazard_of(probes@),
{
    let mut i: usize = 0;
    assert(probes@.skip(0) =~= probes@);
    while i < probes.len()
        invariant
            i <= probes@.len(),
            first_hazard_of(probes@) == first_hazard_of(probes@.skip(i as int)),
        decreases probes@.len() - i,
    {
        let hazard = wpos_is_hazard(probes[i]);
        assert(probes@.skip(i as int).skip(1) =~= probes@.skip(i + 1));
        if hazard.is_some() {
            return hazard;
        }
        i = i + 1;
    }
    None
}

/// Whether a path runs over the surveyed tile.
pub open spec fn is_on_path(origin: Vec2, survey: TileSurvey) -> bool {
    match survey.path {
        Some(near) => distance_to_tile_squared(
            origin,
            survey.tile.x as int,
            survey.tile.y as int,
            near.wpos,
        ) < near.reach_squared,
        None => false,
    }
}

/// Whether a hazard at the surveyed tile makes `(x, y)` unfit: this holds for the block of four
/// tiles below and to the left.
pub open spec fn spoils(survey: TileSurvey, x: int, y: int) -> bool {
    survey.tile.x - 2 <= x <= survey.tile.x - 1 && survey.tile.y - 2 <= y <= survey.tile.y - 1
}

/// What covers `(x, y)` after a survey, if `start` covered it before: what the last tile surveyed
/// that tells anything about it told, and, of one tile, a path before a hazard.
pub open spec fn surveyed_kind(
    origin: Vec2,
    surveys: Seq<TileSurvey>,
    x: int,
    y: int,
    start: TileKind,
) -> TileKind
    decreases surveys.len(),
{
    if surveys.len() == 0 {
        start
    } else {
        let last = surveys.last();
        if last.tile.x == x && last.tile.y == y && is_on_path(origin, last) {
            TileKind::Path
        } else {
            match first_hazard_of(last.probes@) {
                Some(hazard) if spoils(last, x, y) => TileKind::Hazard(hazard),
                _ => surveyed_kind(origin, surveys.drop_last(), x, y, start),
            }
        }
    }
}

/// Whether `after` is `before` with everything marked that a survey found. Plots, altitudes and
/// bounds stay.
pub open spec fn is_surveyed(
    origin: Vec2,
    before: TileGrid,
    after: TileGrid,
    surveys: Seq<TileSurvey>,
) -> bool {
    &&& after.bounds == before.bounds
    &&& forall|x: int, y: int| #[trigger]
        after.at(x, y) == if on_grid(x, y) {
            Tile {
                kind: surveyed_kind(origin, surveys, x, y, before.at(x, y).kind),
                ..before.at(x, y)
            }
        } else {
            before.at(x, y)
        }
}

/// Whether the tiles that hazards spoil have representable positions.
pub open spec fn survey_fits(surveys: Seq<TileSurvey>) -> bool {
    forall|i: int|
        0 <= i < surveys.len() && first_hazard_of((#[trigger] surveys[i]).probes@) is Some
            ==> surveys[i].tile.offset_fits(-2, -2)
}

impl Site {
    fn is_path_at(&self, survey: &TileSurvey) -> (r: bool)
        ensures
            r == is_on_path(self.origin, *survey),
    {
        match survey.path {
            Some(near) => {
                let d2 = self.tile_distance_squared(
                    survey.tile.x as i64,
                    survey.tile.y as i64,
                    near.wpos,
                );
                d2 < near.reach_squared as i128
            },
            None => false,
        }
    }

    /// Marks what a survey of the land found: hazards and paths. The tiles are marked in the
    /// order of the survey, and the bounds of the site do not grow.
    pub fn demarcate_obstacles(&mut self, surveys: &Vec<TileSurvey>)
        requires
            survey_fits(surveys@),
        ensures
            final(self).same_but_tiles(*old(self)),
            is_surveyed(old(self).origin, old(self).tiles, final(self).tiles, surveys@),
            old(self).wf() ==> final(self).wf(),
    {
        let ghost before = self.tiles;
        let mut i: usize = 0;
        assert(surveys@.take(0) =~= Seq::<TileSurvey>::empty());
        while i < surveys.len()
            invariant
                i <= surveys@.len(),
                survey_fits(surveys@),
                before == old(self).tiles,
                self.same_but_tiles(*old(self)),
                is_surveyed(self.origin, before, self.tiles, surveys@.take(i as int)),
            decreases surveys@.len() - i,
        {
            let survey = &surveys[i];
            let ghost prior = self.tiles;
            assert(surveys@.take(i + 1).drop_last() =~= surveys@.take(i as int));
            if let Some(hazard) = first_hazard(&survey.probes) {
                assert(surveys@[i as int].tile.offset_fits(-2, -2));
                let kind = TileKind::Hazard(hazard);
                let tile = survey.tile;
                self.tiles.set_kind(tile.offset(-1, -1), kind);
                self.tiles.set_kind(tile.offset(-2, -1), kind);
                self.tiles.set_kind(tile.offset(-1, -2), kind);
                self.tiles.set_kind(tile.offset(-2, -2), kind);
            }
            if self.is_path_at(survey) {
                self.tiles.set_kind(survey.tile, TileKind::Path);
            }
            i = i + 1;
        }
        assert(surveys@.take(i as int) =~= surveys@);
        proof {
            if old(self).wf() {
                assert forall|x: int, y: int|
                    tile_ok(self.plots@, #[trigger] self.tiles.at(x, y)) && (self.tiles.at(
                        x,
                        y,
                    ).plot is Some ==> self.tiles.bounds.encloses(x, y)) by {
                    assert(tile_ok(old(self).plots@, old(self).tiles.at(x, y)));
                    lemma_surveyed_kind(
                        self.origin,
                        surveys@,
                        x,
                        y,
                        before.at(x, y).kind,
                    );
                }
            }
        }
    }
}

/// A survey leaves what covers a tile, or makes it a hazard or a path.
pub proof fn lemma_surveyed_kind(
    origin: Vec2,
    surveys: Seq<TileSurvey>,
    x: int,
    y: int,
    start: TileKind,
)
    ensures
        ({
            let kind = surveyed_kind(origin, surveys, x, y, start);
            kind == start || kind is Hazard || kind is Path
        }),
    decreases surveys.len(),
{
    if surveys.len() > 0 {
        lemma_surveyed_kind(origin, surveys.drop_last(), x, y, start);
    }
}

} // verus!
