use site_plan::roads::road_cells;
use site_plan::{Aabr, Id, PlotKind, Site, SiteRng, Tile, TileKind, Vec2};

fn straight() -> Vec<Vec2> {
    vec![Vec2::new(0, 0), Vec2::new(1, 0), Vec2::new(2, 0)]
}

fn site_with_road() -> (Site, Id) {
    let mut site = Site::default();
    let mut rng = SiteRng::from_seed([0; 32]);
    let alts: Vec<i32> = (0..12).collect();
    let id = site.create_road(&mut rng, Vec2::new(0, 0), Some(straight()), 2, &alts);
    (site, id.unwrap())
}

#[test]
fn no_path_makes_no_road() {
    let mut site = Site::default();
    let mut rng = SiteRng::from_seed([0; 32]);
    assert_eq!(site.create_road(&mut rng, Vec2::zero(), None, 2, &Vec::new()), None);
    assert!(site.plots().is_empty() && site.roads.is_empty());
    assert_eq!(rng.pos, 0);
}

#[test]
fn roads_are_plots() {
    let (site, id) = site_with_road();
    assert_eq!(site.roads, vec![id]);
    let plot = site.plot(id);
    assert!(matches!(&plot.kind, PlotKind::Road(path) if *path == straight()));
    assert_eq!(plot.tiles, straight());
    assert_eq!(plot.root_tile, Vec2::zero());
    assert_eq!(plot.seed, 0xade0b876);
}

#[test]
fn cells_are_listed_node_by_node() {
    let cells = road_cells(&straight(), 2);
    assert_eq!(cells.len(), 12);
    assert_eq!(cells[..4], [
        Vec2::new(-1, -1),
        Vec2::new(0, -1),
        Vec2::new(-1, 0),
        Vec2::new(0, 0)
    ]);
    assert_eq!(cells[11], Vec2::new(2, 0));
    assert!(road_cells(&straight(), 1).is_empty());
    assert_eq!(road_cells(&straight(), 3).len(), 12);
    assert_eq!(road_cells(&straight(), 4).len(), 48);
}

#[test]
fn road_tiles_lead_to_their_neighbours() {
    let (site, id) = site_with_road();
    let road = |a, b, alt| Tile {
        kind: TileKind::Road { a, b, w: 2 },
        plot: Some(id),
        hard_alt: Some(alt),
    };
    assert_eq!(site.tiles.get(Vec2::new(-1, -1)), road(0, 1, 0));
    assert_eq!(site.tiles.get(Vec2::new(0, 0)), road(0, 1, 3));
    assert_eq!(site.tiles.get(Vec2::new(1, 0)), road(0, 2, 7));
    assert_eq!(site.tiles.get(Vec2::new(2, 0)), road(1, 2, 11));
    assert_eq!(site.tiles.get(Vec2::new(3, 0)), Tile::empty());
    assert_eq!(site.tiles.get(Vec2::new(0, 1)), Tile::empty());
    assert_eq!(
        site.tiles.bounds,
        Aabr { min: Vec2::new(-1, -1), max: Vec2::new(2, 0) }
    );
}

#[test]
fn roads_spare_what_is_there() {
    let mut site = Site::default();
    let mut rng = SiteRng::from_seed([0; 32]);
    let field = Tile { kind: TileKind::Field, plot: None, hard_alt: None };
    site.tiles.set(Vec2::new(1, 0), field);
    let alts = vec![5; 12];
    site.create_road(&mut rng, Vec2::zero(), Some(straight()), 2, &alts);
    assert_eq!(site.tiles.get(Vec2::new(1, 0)), field);
    assert!(site.tiles.get(Vec2::new(1, -1)).is_road());
}

#[test]
fn empty_tiles_of_plots_become_roads() {
    let mut site = Site::default();
    let mut rng = SiteRng::from_seed([0; 32]);
    let owned = Tile { kind: TileKind::Empty, plot: None, hard_alt: Some(1) };
    site.tiles.set(Vec2::new(0, 0), owned);
    let alts = vec![5; 12];
    let id = site.create_road(&mut rng, Vec2::zero(), Some(straight()), 2, &alts);
    assert_eq!(site.tiles.get(Vec2::new(0, 0)).plot, id);
    assert_eq!(site.tiles.get(Vec2::new(0, 0)).hard_alt, Some(5));
}

#[test]
fn obstructions_have_costs() {
    let mut site = Site::default();
    assert_eq!(site.road_obstruction(Vec2::zero(), 2), 0);
    let tile = |kind| Tile { kind, plot: None, hard_alt: None };
    site.tiles.set(Vec2::new(-1, -1), tile(TileKind::Field));
    assert_eq!(site.road_obstruction(Vec2::zero(), 2), 25);
    assert_eq!(site.road_obstruction(Vec2::new(1, 1), 2), 0);
    site.tiles.set(Vec2::new(0, 0), tile(TileKind::Building));
    assert_eq!(site.road_obstruction(Vec2::zero(), 2), 1000);
    assert_eq!(site.road_obstruction(Vec2::zero(), 1), 0);
    assert_eq!(site.road_obstruction(Vec2::new(1, 1), 2), 1000);
    assert_eq!(site.road_obstruction(Vec2::new(2, 1), 2), 0);
}
