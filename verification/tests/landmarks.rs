use site_plan::names::{bridge_name, haniwa_name, terracotta_name};
use site_plan::obstacles::{Probe, TileSurvey};
use rand::seq::SliceRandom;
use rand::{Rng, SeedableRng};
use rand_chacha::ChaChaRng;
use site_plan::{Aabr, HazardKind, Id, PlotKind, Site, SiteRng, Tile, TileKind, Vec2};

fn area(x0: i32, y0: i32, x1: i32, y1: i32) -> Aabr {
    Aabr { min: Vec2::new(x0, y0), max: Vec2::new(x1, y1) }
}

fn rng() -> SiteRng {
    SiteRng::from_seed([0; 32])
}

fn wet(x: i32, y: i32) -> Vec<TileSurvey> {
    let probes = vec![Probe { near_water: Some(true), steep: None }];
    vec![TileSurvey { tile: Vec2::new(x, y), probes, path: None }]
}

/// Checks that a site is one plot, over `at`, of the given kind and with the given tile.
fn check(site: &Site, at: Aabr, cover: TileKind, hard_alt: Option<i32>) {
    assert_eq!(site.plots().len(), 1);
    assert_eq!(site.plots()[0].root_tile, at.center());
    assert_eq!(site.plots()[0].seed, 0xade0b876);
    let tile = Tile { kind: cover, plot: Some(Id { idx: 0 }), hard_alt };
    for x in at.min.x - 2..at.max.x + 2 {
        for y in at.min.y - 2..at.max.y + 2 {
            let inside = at.min.x <= x && x < at.max.x && at.min.y <= y && y < at.max.y;
            let there = site.tiles.get(Vec2::new(x, y));
            assert_eq!(there == tile, inside);
        }
    }
}

#[test]
fn dungeons_leave_the_ground_empty() {
    let site =
        Site::generate_dungeon(&mut rng(), Vec2::new(7, 8), &wet(0, 0), String::from("D"), 4, 3);
    check(&site, area(-4, -4, 4, 4), TileKind::Empty, None);
    assert_eq!(site.dungeon_difficulty(), Some(3));
    assert_eq!((site.origin, site.name()), (Vec2::new(7, 8), "D"));
}

#[test]
fn surveys_show_around_landmarks() {
    let site =
        Site::generate_dungeon(&mut rng(), Vec2::zero(), &wet(8, 8), String::from("D"), 4, 3);
    assert_eq!(site.tiles.get(Vec2::new(6, 6)).kind, TileKind::Hazard(HazardKind::Water));
    assert_eq!(site.tiles.bounds, area(-4, -4, 3, 3));
}

#[test]
fn citadels_and_fortifications_round_down() {
    let none = Vec::new();
    let site = Site::generate_citadel(&mut rng(), Vec2::zero(), &none, String::from("C"), 41);
    check(&site, area(-6, -6, 6, 6), TileKind::Building, None);
    assert!(matches!(site.plots()[0].kind, PlotKind::Citadel));
    let site = Site::generate_gnarling(&mut rng(), Vec2::zero(), &none, String::from("G"), 42);
    check(&site, area(-7, -7, 7, 7), TileKind::GnarlingFortification, None);
    assert!(matches!(site.plots()[0].kind, PlotKind::Gnarling));
}

#[test]
fn trees_have_a_middle_tile() {
    let none = Vec::new();
    let site = Site::generate_giant_tree(&mut rng(), Vec2::zero(), &none, String::from("T"), 3);
    check(&site, area(-3, -3, 4, 4), TileKind::Building, None);
    assert!(matches!(site.plots()[0].kind, PlotKind::GiantTree));
}

#[test]
fn strongholds_have_two_parts() {
    let (cavern, wall) = (area(-2, -2, 2, 2), area(1, 1, 5, 3));
    let site = Site::generate_adlet(
        &mut rng(),
        Vec2::zero(),
        &Vec::new(),
        String::from("A"),
        cavern,
        wall,
    );
    assert_eq!(site.plots()[0].tiles.len(), 24);
    assert_eq!(site.plots()[0].tiles[16], Vec2::new(1, 1));
    assert_eq!(site.plots()[0].root_tile, Vec2::zero());
    assert_eq!(site.tiles.get(Vec2::new(-2, -2)).kind, TileKind::AdletStronghold);
    assert_eq!(site.tiles.get(Vec2::new(4, 2)).kind, TileKind::AdletStronghold);
    assert_eq!(site.tiles.get(Vec2::new(4, 0)), Tile::empty());
    assert_eq!(site.tiles.bounds, area(-2, -2, 4, 2));
}

#[test]
fn solitary_landmarks_have_fixed_sizes() {
    let o = Vec2::new(1, 2);
    let site = Site::generate_haniwa(&mut rng(), o, String::from("H"), 5);
    check(&site, area(-24, -24, 24, 24), TileKind::Building, Some(5));
    assert!(matches!(site.plots()[0].kind, PlotKind::Haniwa));
    assert_eq!(site.name(), "H");
    let site = Site::generate_chapel_site(&mut rng(), o, String::from("S"), 5);
    check(&site, area(-10, -10, 10, 10), TileKind::Building, Some(5));
    assert!(matches!(site.plots()[0].kind, PlotKind::SeaChapel));
    let site = Site::generate_pirate_hideout(&mut rng(), o, 5);
    check(&site, area(-8, -8, 8, 8), TileKind::Building, Some(5));
    assert!(matches!(site.plots()[0].kind, PlotKind::PirateHideout));
    assert_eq!(site.name(), "");
    let site = Site::generate_jungle_ruin(&mut rng(), o, 5);
    check(&site, area(-8, -8, 8, 8), TileKind::Building, Some(5));
    assert!(matches!(site.plots()[0].kind, PlotKind::JungleRuin));
    let site = Site::generate_rock_circle(&mut rng(), o, 5);
    check(&site, area(-8, -8, 8, 8), TileKind::Building, Some(5));
    assert!(matches!(site.plots()[0].kind, PlotKind::RockCircle));
    let site = Site::generate_troll_cave(&mut rng(), o, 5);
    check(&site, area(-2, -2, 2, 2), TileKind::Building, Some(5));
    assert!(matches!(site.plots()[0].kind, PlotKind::TrollCave));
    let site = Site::generate_camp(&mut rng(), o, 5);
    check(&site, area(-2, -2, 2, 2), TileKind::Building, Some(5));
    assert!(matches!(site.plots()[0].kind, PlotKind::Camp));
}

#[test]
fn haniwa_names_end_in_a_word() {
    let words = [
        "Catacombs",
        "Crypt",
        "Tomb",
        "Gravemound",
        "Tunnels",
        "Vault",
        "Chambers",
        "Halls",
        "Tumulus",
        "Barrow",
    ];
    let mut ours = SiteRng::from_seed([2; 32]);
    let mut theirs = ChaChaRng::from_seed([2; 32]);
    for _ in 0..30 {
        let word = words.choose(&mut theirs).unwrap();
        assert_eq!(haniwa_name(&mut ours, "Oru"), format!("Oru {}", word));
    }
}

#[test]
fn terracotta_names_have_two_forms() {
    let words = [
        "Tombs",
        "Necropolis",
        "Ruins",
        "Mausoleum",
        "Cemetery",
        "Burial Grounds",
        "Remains",
        "Temples",
    ];
    let mut ours = SiteRng::from_seed([2; 32]);
    let mut theirs = ChaChaRng::from_seed([2; 32]);
    for _ in 0..30 {
        let word = words.choose(&mut theirs).unwrap();
        let expected = match theirs.gen_range(0..2) {
            0 => format!("Oru {}", word),
            _ => format!("{} of Oru", word),
        };
        assert_eq!(terracotta_name(&mut ours, "Oru"), expected);
    }
}

#[test]
fn bridges_are_named_after_towns() {
    assert_eq!(bridge_name("Oakford"), "Bridge of Oakford");
    assert_eq!(bridge_name(""), "Bridge of ");
}

#[test]
fn sites_have_generators_of_their_own() {
    let mut a = SiteRng::from_seed([7; 32]);
    let mut b = SiteRng::from_seed([7; 32]);
    let mut theirs = ChaChaRng::from_seed([7; 32]);
    let (site, mut own) = Site::start_site(&mut a, Vec2::new(3, 9));
    assert_eq!((site.origin, site.name()), (Vec2::new(3, 9), ""));
    assert!(site.plots().is_empty());
    assert_eq!(own, SiteRng::from_seed(theirs.gen::<[u8; 32]>()));
    Site::generate_camp(&mut own, Vec2::zero(), 5);
    Site::start_site(&mut b, Vec2::zero());
    assert_eq!(a, b);
    assert_eq!(a.next_u32(), theirs.gen::<u32>());
}
