use site_plan::{aabr_tiles, Aabr, Id, Plot, PlotKind, Site, SiteRng, Tile, TileKind, Vec2};

fn area(x0: i32, y0: i32, x1: i32, y1: i32) -> Aabr {
    Aabr { min: Vec2::new(x0, y0), max: Vec2::new(x1, y1) }
}

fn site() -> Site {
    Site::new(Vec2::new(100, -50), String::from("Oakford"))
}

#[test]
fn default_sites_are_blank() {
    let site = Site::default();
    assert_eq!(site.origin, Vec2::zero());
    assert_eq!(site.name(), "");
    assert!(site.plots().is_empty() && site.plazas().is_empty() && site.roads.is_empty());
}

#[test]
fn sites_have_names() {
    assert_eq!(site().name(), "Oakford");
}

#[test]
fn areas_are_listed_row_by_row() {
    assert_eq!(
        aabr_tiles(area(-1, 2, 2, 4)),
        vec![
            Vec2::new(-1, 2),
            Vec2::new(0, 2),
            Vec2::new(1, 2),
            Vec2::new(-1, 3),
            Vec2::new(0, 3),
            Vec2::new(1, 3),
        ]
    );
}

#[test]
fn void_areas_have_no_tiles() {
    assert!(aabr_tiles(area(0, 0, 0, 5)).is_empty());
    assert!(aabr_tiles(area(0, 5, 5, 0)).is_empty());
    assert!(aabr_tiles(area(i32::MAX, 0, i32::MIN, 5)).is_empty());
}

#[test]
fn areas_list_each_tile_once() {
    let tiles = aabr_tiles(area(-7, -3, 4, 9));
    assert_eq!(tiles.len(), 11 * 12);
    for (i, p) in tiles.iter().enumerate() {
        assert!(-7 <= p.x && p.x < 4 && -3 <= p.y && p.y < 9);
        assert!(!tiles[i + 1..].contains(p));
    }
}

#[test]
fn plots_are_numbered_in_order() {
    let mut site = site();
    for n in 0..3u32 {
        let id = site.create_plot(Plot {
            kind: PlotKind::House,
            root_tile: Vec2::zero(),
            tiles: Vec::new(),
            seed: n,
        });
        assert_eq!(id, Id { idx: n as usize });
        assert_eq!(site.plot(id).seed, n);
    }
    assert_eq!(site.plots().len(), 3);
}

#[test]
fn blits_cover_their_area_only() {
    let mut site = site();
    let tile = Tile { kind: TileKind::Field, plot: None, hard_alt: Some(3) };
    site.blit_aabr(area(2, -4, 5, -1), tile);
    for x in -10..10 {
        for y in -10..10 {
            let inside = 2 <= x && x < 5 && -4 <= y && y < -1;
            let expected = if inside { tile } else { Tile::empty() };
            assert_eq!(site.tiles.get(Vec2::new(x, y)), expected);
        }
    }
    assert_eq!(site.tiles.bounds, area(0, -4, 4, 0));
    site.blit_aabr(area(50, 50, 50, 90), tile);
    assert_eq!(site.tiles.bounds, area(0, -4, 4, 0));
}

#[test]
fn placed_plots_own_their_tiles() {
    let mut site = site();
    let mut rng = SiteRng::from_seed([0; 32]);
    let id = site.place(&mut rng, PlotKind::Tavern, area(1, 1, 4, 3), TileKind::Building, Some(8));
    let plot = site.plot(id);
    assert!(matches!(plot.kind, PlotKind::Tavern));
    assert_eq!(plot.root_tile, Vec2::new(2, 2));
    assert_eq!(plot.tiles, aabr_tiles(area(1, 1, 4, 3)));
    assert_eq!(plot.seed, 0xade0b876);
    assert_eq!(rng.pos, 1);
    assert_eq!(
        site.tiles.get(Vec2::new(3, 2)),
        Tile { kind: TileKind::Building, plot: Some(id), hard_alt: Some(8) }
    );
}

#[test]
fn plots_have_bounds() {
    let plot = Plot {
        kind: PlotKind::Plaza,
        root_tile: Vec2::new(1, 1),
        tiles: vec![Vec2::new(4, 0), Vec2::new(-2, 3)],
        seed: 0,
    };
    assert_eq!(plot.find_bounds(), area(-2, 0, 4, 3));
}

#[test]
fn positions_lie_in_tiles() {
    let site = site();
    assert_eq!(site.wpos_tile_pos(Vec2::new(100, -50)), Vec2::zero());
    assert_eq!(site.wpos_tile_pos(Vec2::new(105, -45)), Vec2::zero());
    assert_eq!(site.wpos_tile_pos(Vec2::new(106, -51)), Vec2::new(1, -1));
    assert_eq!(site.wpos_tile_pos(Vec2::new(94, -56)), Vec2::new(-1, -1));
    assert_eq!(site.wpos_tile_pos(Vec2::new(93, -57)), Vec2::new(-2, -2));
}

#[test]
fn far_positions_lie_in_tiles() {
    let site = Site::new(Vec2::new(i32::MAX, i32::MIN), String::new());
    assert_eq!(
        site.wpos_tile_pos(Vec2::new(i32::MIN, i32::MAX)),
        Vec2::new(-715827883, 715827882)
    );
}

#[test]
fn tiles_have_positions() {
    let site = site();
    assert_eq!(site.tile_wpos(Vec2::new(2, -3)), Vec2::new(112, -68));
    assert_eq!(site.tile_center_wpos(Vec2::new(2, -3)), Vec2::new(115, -65));
}

#[test]
fn tiles_and_positions_agree() {
    let site = site();
    for x in -20..20 {
        let tile = Vec2::new(x, 3 - x);
        assert_eq!(site.wpos_tile_pos(site.tile_wpos(tile)), tile);
        assert_eq!(site.wpos_tile_pos(site.tile_center_wpos(tile)), tile);
        let block = Vec2::new(x, -x);
        let corner = site.tile_wpos(site.wpos_tile_pos(block));
        assert!(corner.x <= block.x && block.x < corner.x + 6);
        assert!(corner.y <= block.y && block.y < corner.y + 6);
    }
}

#[test]
fn positions_have_tiles() {
    let mut site = site();
    let tile = Tile { kind: TileKind::Field, plot: None, hard_alt: None };
    site.tiles.set(Vec2::new(-1, 0), tile);
    assert_eq!(site.wpos_tile(Vec2::new(99, -45)), tile);
    assert_eq!(site.wpos_tile(Vec2::new(100, -45)), Tile::empty());
}

#[test]
fn bounds_hold_a_border() {
    let mut site = site();
    assert_eq!(site.bounds(), area(94, -56, 112, -38));
    site.tiles.set(Vec2::new(-5, 7), Tile::empty());
    assert_eq!(site.bounds(), area(100 - 36, -56, 112, -50 + 54));
}

#[test]
fn radius_follows_the_bounds() {
    let mut site = site();
    assert_eq!(site.radius(), 30);
    site.tiles.set(Vec2::new(-5, 7), Tile::empty());
    assert_eq!(site.radius(), 72);
    site.tiles.set(Vec2::new(-9, 0), Tile::empty());
    assert_eq!(site.radius(), 84);
}

#[test]
fn giant_trees_widen_the_radius() {
    let mut rng = SiteRng::from_seed([0; 32]);
    let site = Site::generate_giant_tree(&mut rng, Vec2::zero(), &Vec::new(), String::new(), 2);
    assert_eq!(site.tiles.bounds, area(-2, -2, 2, 2));
    assert_eq!(site.radius(), 162);
}

#[test]
fn distances_to_tiles_are_clamped() {
    let site = site();
    assert_eq!(site.tile_distance_squared(0, 0, Vec2::new(103, -47)), 0);
    assert_eq!(site.tile_distance_squared(0, 0, Vec2::new(107, -52)), 8);
    assert_eq!(site.tile_distance_squared(1, 0, Vec2::new(103, -47)), 9);
}
