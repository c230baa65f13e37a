use rand::{Rng, SeedableRng};
use rand_chacha::ChaChaRng;
use site_plan::names::NameStyle;
use site_plan::plaza::PlazaSearch;
use site_plan::search::AreaSearch;
use site_plan::town::{Build, Phase, SearchPlan, Town, TownKind};
use site_plan::{Aabr, Id, PlotKind, Site, SiteRng, TileKind, Vec2};

fn area(x0: i32, y0: i32, x1: i32, y1: i32) -> Aabr {
    Aabr { min: Vec2::new(x0, y0), max: Vec2::new(x1, y1) }
}

/// A town that is about to build, with a plaza far from the middle.
fn settled(mut town: Town) -> Town {
    town.take_name(String::from("Oakford"));
    if town.phase == Phase::Survey {
        town.survey(&Vec::new());
    }
    assert_eq!(town.phase, Phase::Plaza);
    let mut rng = SiteRng::from_seed([4; 32]);
    plaza(&mut town, &mut rng, Vec2::new(-30, -30), 1);
    town.plaza_made();
    if town.phase == Phase::Centre {
        town.raise_centre(&mut rng, 0);
    }
    town
}

fn city(rounds: u32, max_workshops: i32, large: bool) -> Town {
    let mut rng = SiteRng::from_seed([1; 32]);
    let (town, _) = Site::generate_city(&mut rng, Vec2::zero(), rounds, max_workshops, large);
    assert_eq!(town.phase, Phase::Name);
    settled(town)
}

/// A tile beside that plaza, and the step from there to it.
const DOOR: Vec2 = Vec2 { x: -28, y: -30 };
const DIR: Vec2 = Vec2 { x: -1, y: 0 };

/// A search for what a town is looking for that has come to an end.
fn searched(town: &Town, found: Option<Aabr>) -> AreaSearch {
    let plan = match town.phase {
        Phase::Search(build) => build.search_plan(3),
        _ => panic!("nothing is looked for"),
    };
    AreaSearch { plan, attempts: 0, pos: None, found: found.map(|aabr| (aabr, DOOR, DIR)) }
}

/// Makes a plaza of some radius at a place.
fn plaza(town: &mut Town, rng: &mut SiteRng, pos: Vec2, radius: i32) -> Id {
    let search = PlazaSearch { radius, attempts: 0, found: Some(pos) };
    town.lay_plaza(search, rng, 9).unwrap()
}

/// Takes a lot, finds an area for what it builds, and builds it.
fn build(town: &mut Town, rng: &mut SiteRng, lot: u32, at: Aabr) {
    town.draw_lot(lot);
    if let Phase::Search(_) = town.phase {
        town.take_area(rng, searched(town, Some(at)));
    }
    if let Phase::Search(Build::AirshipDock) = town.phase {
        town.take_area(rng, searched(town, Some(at)));
    }
    if let Phase::Raise { .. } = town.phase {
        town.raise(rng, 0);
    }
}

#[test]
fn workshops_come_first() {
    for lot in 0..9 {
        let mut town = city(3, 0, false);
        town.draw_lot(lot);
        assert_eq!(town.phase, Phase::Search(Build::Workshop));
    }
}

#[test]
fn lots_decide_what_a_city_builds() {
    let cases = [
        (1, Some(Build::House)),
        (2, Some(Build::GuardTower)),
        (3, None),
        (4, Some(Build::Castle)),
        (5, Some(Build::Workshop)),
        (6, Some(Build::DockClearing)),
        (7, Some(Build::Tavern)),
        (8, None),
    ];
    for (lot, expected) in cases {
        let mut rng = SiteRng::from_seed([0; 32]);
        let mut town = city(9, 2, true);
        build(&mut town, &mut rng, 1, area(0, 0, 3, 3));
        assert_eq!((town.workshops, town.left), (1, 8));
        town.draw_lot(lot);
        match expected {
            Some(build) => assert_eq!((town.phase, town.left), (Phase::Search(build), 8)),
            None => assert_eq!((town.phase, town.left), (Phase::Lot, 7)),
        }
    }
}

#[test]
fn small_cities_have_no_docks_and_taverns() {
    let mut rng = SiteRng::from_seed([0; 32]);
    let mut town = city(9, 1, false);
    build(&mut town, &mut rng, 1, area(0, 0, 3, 3));
    for lot in [5, 6, 7] {
        town.draw_lot(lot);
        assert_eq!(town.phase, Phase::Lot);
    }
    assert_eq!(town.left, 5);
}

#[test]
fn quotas_are_kept() {
    let mut rng = SiteRng::from_seed([0; 32]);
    let mut town = city(60, 3, true);
    for n in 0..50 {
        build(&mut town, &mut rng, 4 + n % 4, area(0, 0, 16, 16));
    }
    assert_eq!((town.castles, town.workshops, town.airship_docks, town.taverns), (1, 3, 1, 2));
    let count = |wanted: fn(&PlotKind) -> bool| {
        town.site.plots().iter().filter(|plot| wanted(&plot.kind)).count()
    };
    assert_eq!(count(|kind| matches!(kind, PlotKind::Castle)), 1);
    assert_eq!(count(|kind| matches!(kind, PlotKind::Workshop)), 3);
    assert_eq!(count(|kind| matches!(kind, PlotKind::AirshipDock)), 1);
    assert_eq!(count(|kind| matches!(kind, PlotKind::Tavern)), 2);
}

#[test]
fn buildings_cover_their_area() {
    let mut rng = SiteRng::from_seed([0; 32]);
    let mut town = city(2, 1, true);
    town.draw_lot(1);
    let search = searched(&town, Some(area(2, 2, 5, 4)));
    town.take_area(&mut rng, search);
    assert_eq!(
        town.phase,
        Phase::Raise {
            build: Build::Workshop,
            aabr: area(2, 2, 5, 4),
            door: DOOR,
            dir: DIR,
            offset: 0
        }
    );
    let id = town.raise(&mut rng, 33);
    assert_eq!(rng.pos, 1);
    let tile = town.site.tiles.get(Vec2::new(4, 3));
    assert_eq!((tile.kind, tile.plot, tile.hard_alt), (TileKind::Building, Some(id), Some(33)));
    assert_eq!(town.site.plot(id).root_tile, Vec2::new(3, 3));
    assert_eq!(town.site.plot(id).seed, 0xade0b876);
}

#[test]
fn plazas_stand_in_where_there_is_no_room() {
    let cases = [(1, true), (2, false), (4, false), (6, false), (7, true)];
    for (lot, plaza) in cases {
        let mut rng = SiteRng::from_seed([0; 32]);
        let mut town = city(9, 1, true);
        build(&mut town, &mut rng, 1, area(0, 0, 3, 3));
        town.draw_lot(lot);
        let search = searched(&town, None);
    town.take_area(&mut rng, search);
        if plaza {
            assert_eq!((town.phase, town.left), (Phase::MorePlaza, 8));
            town.plaza_made();
        }
        assert_eq!((town.phase, town.left), (Phase::Lot, 7));
    }
}

#[test]
fn docks_need_a_clearing() {
    let mut rng = SiteRng::from_seed([0; 32]);
    let mut town = city(9, 1, true);
    build(&mut town, &mut rng, 1, area(0, 0, 3, 3));
    town.draw_lot(6);
    let search = searched(&town, Some(area(0, 0, 2, 2)));
    town.take_area(&mut rng, search);
    assert_eq!(town.phase, Phase::Search(Build::AirshipDock));
    let search = searched(&town, None);
    town.take_area(&mut rng, search);
    assert_eq!(town.phase, Phase::MorePlaza);
}

#[test]
fn guard_towers_are_not_built() {
    let mut rng = SiteRng::from_seed([0; 32]);
    let mut town = city(9, 1, true);
    build(&mut town, &mut rng, 1, area(0, 0, 3, 3));
    town.draw_lot(2);
    let search = searched(&town, Some(area(5, 5, 7, 7)));
    town.take_area(&mut rng, search);
    assert_eq!((town.phase, town.left), (Phase::Lot, 7));
    assert_eq!(town.site.plots().len(), 2);
}

#[test]
fn castle_gates_are_drawn() {
    let mut rng = SiteRng::from_seed([5; 32]);
    let mut theirs = ChaChaRng::from_seed([5; 32]);
    let mut town = city(9, 1, true);
    build(&mut town, &mut rng, 1, area(0, 0, 3, 3));
    theirs.gen::<u32>();
    town.draw_lot(4);
    let search = searched(&town, Some(area(0, 0, 17, 16)));
    town.take_area(&mut rng, search);
    let offset = theirs.gen_range(5..12);
    assert_eq!(
        town.phase,
        Phase::Raise {
            build: Build::Castle,
            aabr: area(0, 0, 17, 16),
            door: DOOR,
            dir: DIR,
            offset
        }
    );
    assert_eq!(rng.pos, theirs.get_word_pos());
    town.raise(&mut rng, 0);
    assert_eq!(town.castles, 1);
    assert_eq!(town.site.tiles.get(Vec2::new(offset, 0)).kind, TileKind::Gate);
}

#[test]
fn towns_are_done_after_their_rounds() {
    let mut town = city(0, 1, true);
    assert_eq!(town.phase, Phase::Done);
    town = city(1, 1, true);
    town.draw_lot(1);
    let search = searched(&town, None);
    town.take_area(&mut SiteRng::from_seed([0; 32]), search);
    town.plaza_made();
    assert_eq!(town.phase, Phase::Done);
    assert_eq!(town.finish().plots().len(), 1);
}

#[test]
fn towns_start_in_their_own_way() {
    let o = Vec2::new(3, 4);
    let mut rng = SiteRng::from_seed([1; 32]);
    let cases = [
        (Site::generate_cliff_town(&mut rng, o).0, TownKind::CliffTown, 30, Phase::Plaza),
        (Site::generate_savannah_pit(&mut rng, o).0, TownKind::SavannahPit, 45, Phase::Survey),
        (Site::generate_coastal_town(&mut rng, o).0, TownKind::CoastalTown, 45, Phase::Survey),
        (Site::generate_desert_city(&mut rng, o).0, TownKind::DesertCity, 30, Phase::Survey),
        (Site::generate_terracotta(&mut rng, o).0, TownKind::Terracotta, 16, Phase::Plaza),
    ];
    for (mut town, kind, rounds, phase) in cases {
        assert_eq!((town.kind, town.rounds, town.phase), (kind, rounds, Phase::Name));
        assert_eq!(town.site.origin, o);
        town.take_name(String::from("N"));
        assert_eq!(town.phase, phase);
        assert_eq!(town.site.name(), "N");
    }
    assert_eq!(rng.pos, 160);
}

#[test]
fn callers_go_on_alike() {
    let mut a = SiteRng::from_seed([3; 32]);
    let mut b = SiteRng::from_seed([3; 32]);
    let mut theirs = ChaChaRng::from_seed([3; 32]);
    let (_, child) = Site::generate_city(&mut a, Vec2::zero(), 100, 2, true);
    let (mut town, mut other) = Site::generate_city(&mut b, Vec2::new(70, -5), 1, 0, false);
    town.take_name(String::from("M"));
    other.next_range(0, 10);
    assert_eq!(a, b);
    assert_eq!(child, SiteRng::from_seed(theirs.gen::<[u8; 32]>()));
    assert_eq!(a.next_u32(), theirs.gen::<u32>());
}

#[test]
fn some_towns_have_a_centre() {
    let cases = [
        (TownKind::SavannahPit, Some(11)),
        (TownKind::DesertCity, Some(17)),
        (TownKind::Terracotta, Some(15)),
        (TownKind::CliffTown, None),
        (TownKind::CoastalTown, None),
    ];
    for (kind, centre) in cases {
        assert_eq!(kind.centre_size(), centre);
    }
    let mut rng = SiteRng::from_seed([0; 32]);
    let mut town = Town::start(Site::default(), TownKind::Terracotta, 16);
    town.take_name(String::new());
    town.plaza_made();
    assert_eq!(town.phase, Phase::Centre);
    let id = town.raise_centre(&mut rng, 12);
    assert_eq!((town.phase, town.left), (Phase::Lot, 16));
    assert!(matches!(town.site.plot(id).kind, PlotKind::TerracottaPalace));
    assert_eq!(town.site.plot(id).tiles.len(), 900);
    assert_eq!(town.site.tiles.get(Vec2::new(-15, 14)).hard_alt, Some(12));
    assert!(town.site.tiles.get(Vec2::new(15, 0)).is_empty());
}

#[test]
fn lots_decide_what_other_towns_build() {
    let start = |kind| settled(Town::start(Site::default(), kind, 5));
    let cases = [
        (TownKind::SavannahPit, Build::SavannahHut, Build::SavannahWorkshop),
        (TownKind::CoastalTown, Build::CoastalHouse, Build::CoastalWorkshop),
        (TownKind::DesertCity, Build::DesertCityMultiPlot, Build::DesertCityTemple),
        (TownKind::Terracotta, Build::TerracottaHouse, Build::TerracottaYard),
    ];
    for (kind, first, second) in cases {
        let mut town = start(kind);
        town.draw_lot(1);
        assert_eq!(town.phase, Phase::Search(first));
        let mut town = start(kind);
        town.draw_lot(2);
        assert_eq!(town.phase, Phase::Search(second));
        let mut town = start(kind);
        town.draw_lot(3);
        assert_eq!((town.phase, town.left), (Phase::Lot, 4));
    }
    assert_eq!(start(TownKind::CliffTown).phase, Phase::Search(Build::CliffTower));
}

#[test]
fn desert_cities_have_one_temple() {
    let mut rng = SiteRng::from_seed([0; 32]);
    let mut town = settled(Town::start(Site::default(), TownKind::DesertCity, 30));
    town.draw_lot(2);
    let search = searched(&town, None);
    town.take_area(&mut rng, search);
    assert_eq!(town.left, 29);
    build(&mut town, &mut rng, 2, area(20, 20, 29, 29));
    assert_eq!((town.temples, town.left), (1, 28));
    town.draw_lot(2);
    assert_eq!((town.phase, town.left), (Phase::Lot, 27));
}

#[test]
fn the_first_four_have_campfires() {
    let mut rng = SiteRng::from_seed([0; 32]);
    let mut town = settled(Town::start(Site::default(), TownKind::CliffTown, 30));
    for n in 0..6 {
        assert_eq!(town.campfire(), n < 4);
        let search = searched(&town, Some(area(10 * n, 0, 10 * n + 9, 9)));
    town.take_area(&mut rng, search);
        town.raise(&mut rng, 0);
    }
    assert_eq!(town.campfires, 6);
}

#[test]
fn areas_are_looked_for_by_plan() {
    let plan = |attempts, min_area, max_area, side| SearchPlan {
        attempts,
        min_area,
        max_area,
        min_width: side,
        min_height: side,
    };
    assert_eq!(Build::House.search_plan(2), plan(32, 4, 9, 2));
    assert_eq!(Build::Workshop.search_plan(3), plan(32, 4, 16, 3));
    assert_eq!(Build::AirshipDock.search_plan(3), plan(32, 4, 16, 3));
    assert_eq!(Build::Tavern.search_plan(4), plan(32, 7, 25, 4));
    assert_eq!(Build::CliffTower.search_plan(9), plan(32, 8, 100, 9));
    assert_eq!(Build::SavannahHut.search_plan(4), plan(32, 4, 25, 4));
    assert_eq!(Build::SavannahWorkshop.search_plan(5), plan(32, 4, 36, 5));
    assert_eq!(Build::CoastalHouse.search_plan(7), plan(32, 7, 64, 7));
    assert_eq!(Build::CoastalWorkshop.search_plan(8), plan(32, 7, 81, 8));
    assert_eq!(Build::DesertCityMultiPlot.search_plan(9), plan(32, 8, 100, 9));
    assert_eq!(Build::DesertCityTemple.search_plan(10), plan(32, 8, 121, 10));
    assert_eq!(Build::TerracottaHouse.search_plan(9), plan(32, 9, 100, 9));
    assert_eq!(Build::TerracottaYard.search_plan(10), plan(32, 9, 121, 10));
    assert_eq!(Build::GuardTower.search_plan(0), plan(10, 4, 4, 2));
    assert_eq!(Build::DockClearing.search_plan(0), plan(10, 4, 4, 2));
    assert_eq!(Build::Castle.search_plan(0), plan(32, 256, 324, 16));
}

#[test]
fn sides_are_drawn_in_halves() {
    assert_eq!(Build::House.size_halves(), Some((3, 2)));
    assert_eq!(Build::Workshop.size_halves(), Some((6, 3)));
    assert_eq!(Build::Tavern.size_halves(), Some((7, 4)));
    assert_eq!(Build::CliffTower.size_halves(), Some((18, 2)));
    assert_eq!(Build::SavannahHut.size_halves(), Some((8, 3)));
    assert_eq!(Build::CoastalHouse.size_halves(), Some((14, 3)));
    assert_eq!(Build::DesertCityTemple.size_halves(), Some((18, 3)));
    assert_eq!(Build::Castle.size_halves(), None);
    assert_eq!(Build::AirshipDock.size_halves(), None);
}

#[test]
fn lots_have_weights() {
    let city = TownKind::City { max_workshops: 1, large: false };
    assert_eq!(city.lots(), vec![(64, 1), (5, 2), (8, 3), (5, 4), (5, 5), (15, 6), (15, 7)]);
    assert_eq!(TownKind::SavannahPit.lots(), vec![(38, 1), (7, 2)]);
    assert_eq!(TownKind::CoastalTown.lots(), vec![(38, 1), (7, 2)]);
    assert_eq!(TownKind::DesertCity.lots(), vec![(20, 1), (10, 2)]);
    assert_eq!(TownKind::Terracotta.lots(), vec![(12, 1), (4, 2)]);
    assert!(TownKind::CliffTown.lots().is_empty());
}

#[test]
fn plazas_are_laid_and_joined() {
    let mut rng = SiteRng::from_seed([0; 32]);
    let mut town = Town::start(Site::default(), TownKind::CliffTown, 30);
    town.take_name(String::new());
    let first = plaza(&mut town, &mut rng, Vec2::zero(), 1);
    assert_eq!(town.phase, Phase::Plaza);
    town.join_plaza(2);
    assert_eq!(town.next_link(&vec![true]), None);
    town.plaza_made();
    assert_eq!(town.phase, Phase::Search(Build::CliffTower));

    let search = searched(&town, None);
    town.take_area(&mut rng, search);
    let second = plaza(&mut town, &mut rng, Vec2::new(13, 0), 2);
    town.join_plaza(1);
    assert_eq!(town.next_link(&vec![true, true]), Some(first));
    assert_eq!(town.due, Some(first));
    let path: Vec<Vec2> = (0..14).map(|x| Vec2::new(x, 0)).collect();
    let alts = vec![7; 14 * 4];
    let road = town.create_road(&mut rng, Some(path), &alts).unwrap();
    assert_eq!(town.site.plot(road).root_tile, Vec2::zero());
    assert_eq!(town.next_link(&vec![true, true]), None);
    town.plaza_made();
    assert!(town.links.is_none());
    assert_eq!(town.left, 29);
    assert_eq!(town.site.plazas(), &vec![first, second]);
    assert_eq!(town.site.roads, vec![road]);
    assert_eq!(town.site.tiles.get(Vec2::new(5, 0)).plot, Some(road));
}

#[test]
fn no_place_makes_no_plaza() {
    let mut rng = SiteRng::from_seed([0; 32]);
    let mut town = Town::start(Site::default(), TownKind::CliffTown, 30);
    town.take_name(String::new());
    let search = PlazaSearch { radius: 1, attempts: 0, found: None };
    assert_eq!(town.lay_plaza(search, &mut rng, 9), None);
    assert_eq!(rng.pos, 0);
    assert!(town.site.plots().is_empty() && town.links.is_none());
}

#[test]
fn no_path_leaves_the_road_out() {
    let mut rng = SiteRng::from_seed([0; 32]);
    let mut town = Town::start(Site::default(), TownKind::CliffTown, 30);
    town.take_name(String::new());
    let first = plaza(&mut town, &mut rng, Vec2::zero(), 1);
    town.plaza_made();
    let search = searched(&town, None);
    town.take_area(&mut rng, search);
    plaza(&mut town, &mut rng, Vec2::new(13, 0), 2);
    town.join_plaza(2);
    assert_eq!(town.next_link(&vec![true, true]), Some(first));
    assert_eq!(town.create_road(&mut rng, None, &Vec::new()), None);
    assert_eq!(town.due, None);
    assert!(town.site.roads.is_empty());
}

#[test]
fn first_buildings_of_cities_are_workshops() {
    let mut rng = SiteRng::from_seed([0; 32]);
    let mut town = city(40, 3, true);
    for n in 0..30 {
        let at = area(-200 + 12 * n, 0, -200 + 12 * n + 11, 11);
        build(&mut town, &mut rng, 1 + (n as u32) % 7, at);
        assert!(matches!(town.site.plots()[1].kind, PlotKind::Workshop));
    }
    assert!(town.site.plots().len() <= 42);
}

#[test]
fn buildings_on_clear_areas_share_no_tile() {
    let mut rng = SiteRng::from_seed([0; 32]);
    let mut town = city(40, 3, true);
    for n in 0..12 {
        let at = area(20 * n - 120, 0, 20 * n - 103, 17);
        build(&mut town, &mut rng, 1 + (n as u32) % 7, at);
    }
    let plots = town.site.plots();
    assert!(plots.len() > 5);
    for (i, a) in plots.iter().enumerate() {
        for b in &plots[i + 1..] {
            assert!(a.tiles.iter().all(|p| !b.tiles.contains(p)));
        }
    }
}

#[test]
fn centres_keep_their_inner_tiles() {
    let mut rng = SiteRng::from_seed([0; 32]);
    let mut town = Town::start(Site::default(), TownKind::Terracotta, 16);
    town.take_name(String::new());
    plaza(&mut town, &mut rng, Vec2::zero(), 3);
    town.plaza_made();
    let id = town.raise_centre(&mut rng, 0);
    assert_eq!(town.centre, Some(id));
    town.draw_lot(1);
    let search = searched(&town, None);
    town.take_area(&mut rng, search);
    plaza(&mut town, &mut rng, Vec2::new(15, 6), 3);
    town.plaza_made();
    assert_ne!(town.site.tiles.get(Vec2::new(12, 4)).plot, Some(id));
    for x in -12..12 {
        for y in -12..12 {
            assert_eq!(town.site.tiles.get(Vec2::new(x, y)).plot, Some(id));
        }
    }
}

#[test]
fn names_have_styles() {
    let city = TownKind::City { max_workshops: 1, large: false };
    assert_eq!(city.name_style(), NameStyle::Town);
    assert_eq!(TownKind::CliffTown.name_style(), NameStyle::Arabic);
    assert_eq!(TownKind::DesertCity.name_style(), NameStyle::Arabic);
    assert_eq!(TownKind::SavannahPit.name_style(), NameStyle::Savannah);
    assert_eq!(TownKind::CoastalTown.name_style(), NameStyle::Danari);
    assert_eq!(TownKind::Terracotta.name_style(), NameStyle::Terracotta);
}

#[test]
fn buildings_have_generators_of_their_own() {
    let mut rng = SiteRng::from_seed([0; 32]);
    let mut town = city(9, 1, true);
    town.draw_lot(1);
    let search = searched(&town, Some(area(2, 2, 5, 4)));
    town.take_area(&mut rng, search);
    let mut theirs = ChaChaRng::from_seed([0; 32]);
    let own = SiteRng::from_seed(theirs.gen::<[u8; 32]>());
    assert_eq!(town.inner_rng(&mut rng), Some(own));
    assert_eq!(rng.pos, 32);
    town.raise(&mut rng, 0);
    town.draw_lot(4);
    let search = searched(&town, Some(area(0, 0, 17, 16)));
    town.take_area(&mut rng, search);
    let before = rng;
    assert_eq!(town.inner_rng(&mut rng), None);
    assert_eq!(rng, before);
}

#[test]
fn centres_are_alone_of_their_kind() {
    let mut rng = SiteRng::from_seed([0; 32]);
    let mut town = settled(Town::start(Site::default(), TownKind::Terracotta, 16));
    for n in 0..16 {
        build(&mut town, &mut rng, 1 + n % 2, area(20, 10 * n as i32, 29, 10 * n as i32 + 9));
    }
    assert_eq!(town.phase, Phase::Done);
    let palaces = |plot: &&site_plan::Plot| matches!(plot.kind, PlotKind::TerracottaPalace);
    assert_eq!(town.site.plots().iter().filter(palaces).count(), 1);
    let buildings = town.site.plots().iter().filter(|plot| plot.kind.has_structure()).count();
    assert_eq!(buildings, 17);
}
