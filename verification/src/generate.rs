//! Starting settlements, and laying out landmarks that are a single plot.

use crate::geom::{Aabr, Vec2};
use crate::obstacles::{survey_fits, surveyed_kind, TileSurvey};
use crate::plot::{Id, Plot, PlotKind};
use crate::rng::SiteRng;
use crate::site::{aabr_tiles, area_tiles, center_tile, grown, Site};
use crate::tile::{empty_tile, on_grid, Tile, TileKind};
use crate::town::{Town, TownKind};
use vstd::prelude::*;

verus! {

/// A sixth of `a`, rounded toward zero.
pub open spec fn sixth_toward_zero(a: int) -> int {
    if a >= 0 {
        a / 6
    } else {
        -((-a) / 6)
    }
}

/// The area from `-size` up to `size + more`, which is left out.
pub open spec fn landmark_area(size: int, more: int) -> Aabr {
    Aabr {
        min: Vec2 { x: (-size) as i32, y: (-size) as i32 },
        max: Vec2 { x: (size + more) as i32, y: (size + more) as i32 },
    }
}

/// The tile at `(x, y)` of a site of which only the land has been surveyed.
pub open spec fn ground(origin: Vec2, surveys: Seq<TileSurvey>, x: int, y: int) -> Tile {
    if on_grid(x, y) {
        Tile {
            kind: surveyed_kind(origin, surveys, x, y, TileKind::Empty),
            plot: None,
            hard_alt: None,
        }
    } else {
        empty_tile()
    }
}

/// Whether a site is a single plot over an area, on land that has been surveyed.
pub open spec fn is_landmark(
    site: Site,
    origin: Vec2,
    name: Seq<char>,
    surveys: Seq<TileSurvey>,
    kind: PlotKind,
    area: Aabr,
    seed: u32,
    cover: TileKind,
    hard_alt: Option<i32>,
) -> bool {
    let zero = Aabr { min: Vec2 { x: 0, y: 0 }, max: Vec2 { x: 0, y: 0 } };
    &&& site.origin == origin
    &&& site.name@ == name
    &&& site.plots@.len() == 1
    &&& site.plots@[0].kind == kind
    &&& site.plots@[0].root_tile == center_tile(area)
    &&& site.plots@[0].tiles@ == area_tiles(area)
    &&& site.plots@[0].seed == seed
    &&& site.plazas@.len() == 0
    &&& site.roads@.len() == 0
    &&& forall|x: int, y: int| #[trigger]
        site.tiles.at(x, y) == if area.holds(x, y) && on_grid(x, y) {
            Tile { kind: cover, plot: Some(Id { idx: 0 }), hard_alt }
        } else {
            ground(origin, surveys, x, y)
        }
    &&& site.tiles.bounds == grown(zero, area)
}

impl Site {
    /// A site of which only the land has been surveyed.
    pub fn surveyed(origin: Vec2, name: String, surveys: &Vec<TileSurvey>) -> (r: Site)
        requires
            survey_fits(surveys@),
        ensures
            r.wf(),
            r.origin == origin,
            r.name == name,
            r.plots@.len() == 0,
            r.plazas@.len() == 0,
            r.roads@.len() == 0,
            r.tiles.bounds == (Aabr { min: Vec2 { x: 0, y: 0 }, max: Vec2 { x: 0, y: 0 } }),
            forall|x: int, y: int| #[trigger]
                r.tiles.at(x, y) == ground(origin, surveys@, x, y),
    {
        let mut site = Site::new(origin, name);
        site.demarcate_obstacles(surveys);
        site
    }

    fn landmark(
        rng: &mut SiteRng,
        origin: Vec2,
        name: String,
        surveys: &Vec<TileSurvey>,
        kind: PlotKind,
        area: Aabr,
        cover: TileKind,
        hard_alt: Option<i32>,
    ) -> (r: Site)
        requires
            survey_fits(surveys@),
            !(cover is Road),
        ensures
            r.wf(),
            is_landmark(
                r,
                origin,
                name@,
                surveys@,
                kind,
                area,
                old(rng).word(),
                cover,
                hard_alt,
            ),
            *final(rng) == old(rng).skip(1),
    {
        let mut site = Site::surveyed(origin, name, surveys);
        site.place(rng, kind, area, cover, hard_alt);
        site
    }

    /// A landmark on land that has not been surveyed, `size` tiles from its middle to its edge.
    fn solitary(
        rng: &mut SiteRng,
        origin: Vec2,
        name: String,
        kind: PlotKind,
        size: i32,
        alt: i32,
    ) -> (r: Site)
        requires
            0 <= size,
        ensures
            r.wf(),
            is_landmark(
                r,
                origin,
                name@,
                Seq::empty(),
                kind,
                landmark_area(size as int, 0),
                old(rng).word(),
                TileKind::Building,
                Some(alt),
            ),
            *final(rng) == old(rng).skip(1),
    {
        let surveys: Vec<TileSurvey> = Vec::new();
        let area = Aabr { min: Vec2 { x: -size, y: -size }, max: Vec2 { x: size, y: size } };
        let site = Self::landmark(
            rng,
            origin,
            name,
            &surveys,
            kind,
            area,
            TileKind::Building,
            Some(alt),
        );
        assert(surveys@ =~= Seq::empty());
        site
    }

    /// A dungeon, whose ground is left empty. `rng` is the site's own generator, by which the
    /// dungeon was worked out.
    pub fn generate_dungeon(
        rng: &mut SiteRng,
        origin: Vec2,
        surveys: &Vec<TileSurvey>,
        name: String,
        size: i32,
        difficulty: u32,
    ) -> (r: Site)
        requires
            survey_fits(surveys@),
            size > i32::MIN,
        ensures
            r.wf(),
            is_landmark(
                r,
                origin,
                name@,
                surveys@,
                PlotKind::Dungeon { difficulty },
                landmark_area(size as int, 0),
                old(rng).word(),
                TileKind::Empty,
                None,
            ),
            *final(rng) == old(rng).skip(1),
    {
        let area = Aabr { min: Vec2 { x: -size, y: -size }, max: Vec2 { x: size, y: size } };
        Self::landmark(
            rng,
            origin,
            name,
            surveys,
            PlotKind::Dungeon { difficulty },
            area,
            TileKind::Empty,
            None,
        )
    }

    /// A citadel, whose radius is given in blocks. `rng` is the site's own generator, by which the
    /// citadel was worked out.
    pub fn generate_citadel(
        rng: &mut SiteRng,
        origin: Vec2,
        surveys: &Vec<TileSurvey>,
        name: String,
        radius: i32,
    ) -> (r: Site)
        requires
            survey_fits(surveys@),
        ensures
            r.wf(),
            is_landmark(
                r,
                origin,
                name@,
                surveys@,
                PlotKind::Citadel,
                landmark_area(sixth_toward_zero(radius as int), 0),
                old(rng).word(),
                TileKind::Building,
                None,
            ),
            *final(rng) == old(rng).skip(1),
    {
        let size: i32 = radius / 6;
        let area = Aabr { min: Vec2 { x: -size, y: -size }, max: Vec2 { x: size, y: size } };
        Self::landmark(
            rng,
            origin,
            name,
            surveys,
            PlotKind::Citadel,
            area,
            TileKind::Building,
            None,
        )
    }

    /// A gnarling fortification, whose radius is given in blocks. `rng` is the site's own generator,
    /// by which the fortification was worked out.
    pub fn generate_gnarling(
        rng: &mut SiteRng,
        origin: Vec2,
        surveys: &Vec<TileSurvey>,
        name: String,
        radius: i32,
    ) -> (r: Site)
        requires
            survey_fits(surveys@),
        ensures
            r.wf(),
            is_landmark(
                r,
                origin,
                name@,
                surveys@,
                PlotKind::Gnarling,
                landmark_area(sixth_toward_zero(radius as int), 0),
                old(rng).word(),
                TileKind::GnarlingFortification,
                None,
            ),
            *final(rng) == old(rng).skip(1),
    {
        let size: i32 = radius / 6;
        let area = Aabr { min: Vec2 { x: -size, y: -size }, max: Vec2 { x: size, y: size } };
        Self::landmark(
            rng,
            origin,
            name,
            surveys,
            PlotKind::Gnarling,
            area,
            TileKind::GnarlingFortification,
            None,
        )
    }

    /// An adlet stronghold: a cavern, and a wall that is laid over it where they meet. `rng` is the
    /// site's own generator, by which the stronghold was worked out.
    pub fn generate_adlet(
        rng: &mut SiteRng,
        origin: Vec2,
        surveys: &Vec<TileSurvey>,
        name: String,
        cavern: Aabr,
        wall: Aabr,
    ) -> (r: Site)
        requires
            survey_fits(surveys@),
        ensures
            r.wf(),
            r.origin == origin,
            r.name == name,
            r.plots@.len() == 1,
            r.plots@[0].kind is Adlet,
            r.plots@[0].root_tile == center_tile(cavern),
            r.plots@[0].tiles@ == area_tiles(cavern) + area_tiles(wall),
            r.plots@[0].seed == old(rng).word(),
            r.plazas@.len() == 0,
            r.roads@.len() == 0,
            forall|x: int, y: int| #[trigger]
                r.tiles.at(x, y) == if (cavern.holds(x, y) || wall.holds(x, y)) && on_grid(x, y) {
                    Tile {
                        kind: TileKind::AdletStronghold,
                        plot: Some(Id { idx: 0 }),
                        hard_alt: None,
                    }
                } else {
                    ground(origin, surveys@, x, y)
                },
            r.tiles.bounds == grown(
                grown(Aabr { min: Vec2 { x: 0, y: 0 }, max: Vec2 { x: 0, y: 0 } }, cavern),
                wall,
            ),
            *final(rng) == old(rng).skip(1),
    {
        let mut site = Site::surveyed(origin, name, surveys);
        let mut tiles = aabr_tiles(cavern);
        let mut more = aabr_tiles(wall);
        tiles.append(&mut more);
        let seed = rng.next_u32();
        let id = site.create_plot(
            Plot { kind: PlotKind::Adlet, root_tile: cavern.center(), tiles, seed },
        );
        let tile = Tile { kind: TileKind::AdletStronghold, plot: Some(id), hard_alt: None };
        site.blit_aabr(cavern, tile);
        site.blit_aabr(wall, tile);
        site
    }

    /// A giant tree. `rng` is the site's own generator, by which the tree was worked out.
    pub fn generate_giant_tree(
        rng: &mut SiteRng,
        origin: Vec2,
        surveys: &Vec<TileSurvey>,
        name: String,
        size: i32,
    ) -> (r: Site)
        requires
            survey_fits(surveys@),
            i32::MIN < size < i32::MAX,
        ensures
            r.wf(),
            is_landmark(
                r,
                origin,
                name@,
                surveys@,
                PlotKind::GiantTree,
                landmark_area(size as int, 1),
                old(rng).word(),
                TileKind::Building,
                None,
            ),
            *final(rng) == old(rng).skip(1),
    {
        let area = Aabr {
            min: Vec2 { x: -size, y: -size },
            max: Vec2 { x: size + 1, y: size + 1 },
        };
        Self::landmark(
            rng,
            origin,
            name,
            surveys,
            PlotKind::GiantTree,
            area,
            TileKind::Building,
            None,
        )
    }

    /// Haniwa tombs. `rng` is the site's own generator, once that of the tombs was seeded from it.
    pub fn generate_haniwa(
        rng: &mut SiteRng,
        origin: Vec2,
        name: String,
        alt: i32,
    ) -> (r: Site)
        ensures
            r.wf(),
            is_landmark(
                r,
                origin,
                name@,
                Seq::empty(),
                PlotKind::Haniwa,
                landmark_area(24, 0),
                old(rng).word(),
                TileKind::Building,
                Some(alt),
            ),
            *final(rng) == old(rng).skip(1),
    {
        Self::solitary(rng, origin, name, PlotKind::Haniwa, 24, alt)
    }

    /// A chapel by the sea. `rng` is the site's own generator, once that of the chapel was seeded
    /// from it.
    pub fn generate_chapel_site(
        rng: &mut SiteRng,
        origin: Vec2,
        name: String,
        alt: i32,
    ) -> (r: Site)
        ensures
            r.wf(),
            is_landmark(
                r,
                origin,
                name@,
                Seq::empty(),
                PlotKind::SeaChapel,
                landmark_area(10, 0),
                old(rng).word(),
                TileKind::Building,
                Some(alt),
            ),
            *final(rng) == old(rng).skip(1),
    {
        Self::solitary(rng, origin, name, PlotKind::SeaChapel, 10, alt)
    }

    /// A pirate hideout, which has no name. `rng` is the site's own generator, once that of the
    /// hideout was seeded from it.
    pub fn generate_pirate_hideout(rng: &mut SiteRng, origin: Vec2, alt: i32) -> (r: Site)
        ensures
            r.wf(),
            is_landmark(
                r,
                origin,
                Seq::empty(),
                Seq::empty(),
                PlotKind::PirateHideout,
                landmark_area(8, 0),
                old(rng).word(),
                TileKind::Building,
                Some(alt),
            ),
            *final(rng) == old(rng).skip(1),
    {
        Self::solitary(rng, origin, String::new(), PlotKind::PirateHideout, 8, alt)
    }

    /// A ruin in the jungle, which has no name. `rng` is the site's own generator, once that of the
    /// ruin was seeded from it.
    pub fn generate_jungle_ruin(rng: &mut SiteRng, origin: Vec2, alt: i32) -> (r: Site)
        ensures
            r.wf(),
            is_landmark(
                r,
                origin,
                Seq::empty(),
                Seq::empty(),
                PlotKind::JungleRuin,
                landmark_area(8, 0),
                old(rng).word(),
                TileKind::Building,
                Some(alt),
            ),
            *final(rng) == old(rng).skip(1),
    {
        Self::solitary(rng, origin, String::new(), PlotKind::JungleRuin, 8, alt)
    }

    /// A circle of rocks, which has no name. `rng` is the site's own generator, once that of the
    /// circle was seeded from it.
    pub fn generate_rock_circle(rng: &mut SiteRng, origin: Vec2, alt: i32) -> (r: Site)
        ensures
            r.wf(),
            is_landmark(
                r,
                origin,
                Seq::empty(),
                Seq::empty(),
                PlotKind::RockCircle,
                landmark_area(8, 0),
                old(rng).word(),
                TileKind::Building,
                Some(alt),
            ),
            *final(rng) == old(rng).skip(1),
    {
        Self::solitary(rng, origin, String::new(), PlotKind::RockCircle, 8, alt)
    }

    /// A troll cave, which has no name. `rng` is the site's own generator, once that of the cave was
    /// seeded from it.
    pub fn generate_troll_cave(rng: &mut SiteRng, origin: Vec2, alt: i32) -> (r: Site)
        ensures
            r.wf(),
            is_landmark(
                r,
                origin,
                Seq::empty(),
                Seq::empty(),
                PlotKind::TrollCave,
                landmark_area(2, 0),
                old(rng).word(),
                TileKind::Building,
                Some(alt),
            ),
            *final(rng) == old(rng).skip(1),
    {
        Self::solitary(rng, origin, String::new(), PlotKind::TrollCave, 2, alt)
    }

    /// A camp, which has no name. `rng` is the site's own generator, once that of the camp was
    /// seeded from it.
    pub fn generate_camp(rng: &mut SiteRng, origin: Vec2, alt: i32) -> (r: Site)
        ensures
            r.wf(),
            is_landmark(
                r,
                origin,
                Seq::empty(),
                Seq::empty(),
                PlotKind::Camp,
                landmark_area(2, 0),
                old(rng).word(),
                TileKind::Building,
                Some(alt),
            ),
            *final(rng) == old(rng).skip(1),
    {
        Self::solitary(rng, origin, String::new(), PlotKind::Camp, 2, alt)
    }

    /// Starts a site: gives an empty one without a name, and the generator that is its own, seeded
    /// from `rng`. Whatever is drawn from its own generator, `rng` goes on in the same way.
    pub fn start_site(rng: &mut SiteRng, origin: Vec2) -> (r: (Site, SiteRng))
        ensures
            is_site_started(r, *old(rng), origin),
            *final(rng) == old(rng).skip(32),
    {
        let own = rng.reseed();
        (Site::new(origin, String::new()), own)
    }

    /// Starts a town, and the generator that decides how it grows.
    fn start_town(rng: &mut SiteRng, origin: Vec2, kind: TownKind, rounds: u32) -> (r: (
        Town,
        SiteRng,
    ))
        ensures
            is_town_started(r, *old(rng), origin, kind, rounds),
            *final(rng) == old(rng).skip(32),
    {
        let (site, own) = Self::start_site(rng, origin);
        (Town::start(site, kind, rounds), own)
    }

    /// Starts a city that grows for some rounds. Whatever the city becomes, the generator that it
    /// was seeded from goes on in the same way.
    pub fn generate_city(
        rng: &mut SiteRng,
        origin: Vec2,
        rounds: u32,
        max_workshops: i32,
        large: bool,
    ) -> (r: (Town, SiteRng))
        ensures
            is_town_started(
                r,
                *old(rng),
                origin,
                TownKind::City { max_workshops, large },
                rounds,
            ),
            *final(rng) == old(rng).skip(32),
    {
        Self::start_town(rng, origin, TownKind::City { max_workshops, large }, rounds)
    }

    /// Starts a town of cliff towers.
    pub fn generate_cliff_town(rng: &mut SiteRng, origin: Vec2) -> (r: (Town, SiteRng))
        ensures
            is_town_started(r, *old(rng), origin, TownKind::CliffTown, 30),
            *final(rng) == old(rng).skip(32),
    {
        Self::start_town(rng, origin, TownKind::CliffTown, 30)
    }

    /// Starts a town around a savannah pit.
    pub fn generate_savannah_pit(rng: &mut SiteRng, origin: Vec2) -> (r: (Town, SiteRng))
        ensures
            is_town_started(r, *old(rng), origin, TownKind::SavannahPit, 45),
            *final(rng) == old(rng).skip(32),
    {
        Self::start_town(rng, origin, TownKind::SavannahPit, 45)
    }

    /// Starts a coastal town.
    pub fn generate_coastal_town(rng: &mut SiteRng, origin: Vec2) -> (r: (Town, SiteRng))
        ensures
            is_town_started(r, *old(rng), origin, TownKind::CoastalTown, 45),
            *final(rng) == old(rng).skip(32),
    {
        Self::start_town(rng, origin, TownKind::CoastalTown, 45)
    }

    /// Starts a desert city.
    pub fn generate_desert_city(rng: &mut SiteRng, origin: Vec2) -> (r: (Town, SiteRng))
        ensures
            is_town_started(r, *old(rng), origin, TownKind::DesertCity, 30),
            *final(rng) == old(rng).skip(32),
    {
        Self::start_town(rng, origin, TownKind::DesertCity, 30)
    }

    /// Starts a town around a terracotta palace.
    pub fn generate_terracotta(rng: &mut SiteRng, origin: Vec2) -> (r: (Town, SiteRng))
        ensures
            is_town_started(r, *old(rng), origin, TownKind::Terracotta, 16),
            *final(rng) == old(rng).skip(32),
    {
        Self::start_town(rng, origin, TownKind::Terracotta, 16)
    }
}

/// Whether a site and its own generator are as they are at the start, if they were seeded from
/// `parent`.
pub open spec fn is_site_started(
    started: (Site, SiteRng),
    parent: SiteRng,
    origin: Vec2,
) -> bool {
    &&& started.0.wf()
    &&& started.0.blank()
    &&& started.0.origin == origin
    &&& started.0.name@ == Seq::<char>::empty()
    &&& started.1.is_child(parent)
}

/// Whether a town, and the generator that decides how it grows, are as they are at the start, if
/// they were seeded from `parent`.
pub open spec fn is_town_started(
    started: (Town, SiteRng),
    parent: SiteRng,
    origin: Vec2,
    kind: TownKind,
    rounds: u32,
) -> bool {
    &&& started.0.wf()
    &&& started.0.undisturbed()
    &&& started.0.is_start(kind, rounds)
    &&& started.0.site.origin == origin
    &&& started.0.site.name@ == Seq::<char>::empty()
    &&& started.1.is_child(parent)
}

} // verus!
