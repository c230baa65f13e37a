use site_plan::rules::SpawnRules;
use site_plan::{Aabr, Id, Plot, PlotKind, Site, SiteRng, TileKind, Vec2};

fn with_kinds(kinds: Vec<PlotKind>) -> Site {
    let mut site = Site::default();
    for kind in kinds {
        site.create_plot(Plot { kind, root_tile: Vec2::zero(), tiles: Vec::new(), seed: 0 });
    }
    site
}

fn ids(numbers: &[usize]) -> Vec<Id> {
    numbers.iter().map(|&idx| Id { idx }).collect()
}

#[test]
fn warp_grows_with_the_distance() {
    let mut site = Site::default();
    let mut rng = SiteRng::from_seed([0; 32]);
    site.make_plaza(&mut rng, Vec2::zero(), 1, 0);
    let rules = |trees, warp_squared, paths| SpawnRules {
        trees,
        warp_squared,
        paths,
        waypoints: true,
    };
    assert_eq!(site.spawn_rules(Vec2::new(0, 0)), rules(false, Some(0), false));
    assert_eq!(site.spawn_rules(Vec2::new(11, 11)), rules(false, Some(0), false));
    assert_eq!(site.spawn_rules(Vec2::new(12, 0)), rules(false, Some(1), true));
    assert_eq!(site.spawn_rules(Vec2::new(13, 14)), rules(false, Some(13), true));
    assert_eq!(site.spawn_rules(Vec2::new(17, 0)), rules(true, Some(36), true));
    assert_eq!(site.spawn_rules(Vec2::new(17, 17)), rules(false, Some(72), true));
    assert_eq!(site.spawn_rules(Vec2::new(18, 0)), rules(true, None, true));
    assert_eq!(site.spawn_rules(Vec2::new(-7, 0)), rules(false, Some(1), true));
}

#[test]
fn nature_does_not_warp() {
    let mut rng = SiteRng::from_seed([0; 32]);
    let area = Aabr { min: Vec2::new(-3, -3), max: Vec2::new(3, 3) };
    let void = Aabr { min: Vec2::zero(), max: Vec2::zero() };
    let site =
        Site::generate_adlet(&mut rng, Vec2::zero(), &Vec::new(), String::from("A"), area, void);
    assert_eq!(site.tiles.get(Vec2::zero()).kind, TileKind::AdletStronghold);
    assert!(site.spawn_rules(Vec2::zero()).trees);
}

#[test]
fn some_plots_have_spawn_rules() {
    let site = with_kinds(vec![
        PlotKind::House,
        PlotKind::Dungeon { difficulty: 1 },
        PlotKind::Gnarling,
        PlotKind::Adlet,
        PlotKind::Citadel,
        PlotKind::SeaChapel,
        PlotKind::Haniwa,
        PlotKind::TerracottaPalace,
        PlotKind::TerracottaHouse,
        PlotKind::TerracottaYard,
        PlotKind::Camp,
    ]);
    assert_eq!(site.plots_with_spawn_rules(), ids(&[1, 2, 3, 5, 6, 7, 8, 9]));
}

#[test]
fn some_plots_have_supplements() {
    let site = with_kinds(vec![
        PlotKind::Adlet,
        PlotKind::SeaChapel,
        PlotKind::Dungeon { difficulty: 1 },
        PlotKind::Gnarling,
        PlotKind::Castle,
    ]);
    assert_eq!(site.apply_supplement(), ids(&[0, 2, 3]));
    assert_eq!(with_kinds(vec![PlotKind::Camp]).apply_supplement(), ids(&[]));
}

#[test]
fn the_hardest_dungeon_counts() {
    let dungeon = |difficulty| PlotKind::Dungeon { difficulty };
    assert_eq!(with_kinds(vec![PlotKind::House]).dungeon_difficulty(), None);
    assert_eq!(with_kinds(vec![dungeon(0)]).dungeon_difficulty(), Some(0));
    let site = with_kinds(vec![dungeon(2), PlotKind::House, dungeon(5), dungeon(4)]);
    assert_eq!(site.dungeon_difficulty(), Some(5));
}
