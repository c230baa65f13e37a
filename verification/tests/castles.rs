use site_plan::castle::castle_gate;
use site_plan::{
    Aabr, Dir, KeepKind, PlotKind, RoofKind, Site, SiteRng, Tile, TileKind, Vec2,
};

fn castle() -> Site {
    let mut site = Site::default();
    let mut rng = SiteRng::from_seed([0; 32]);
    let area = Aabr { min: Vec2::zero(), max: Vec2::new(16, 16) };
    let id = site.raise_castle(&mut rng, area, 6, 20);
    assert!(matches!(site.plot(id).kind, PlotKind::Castle));
    assert_eq!(site.plot(id).root_tile, Vec2::new(8, 8));
    assert_eq!(site.plot(id).tiles.len(), 256);
    assert_eq!(site.plot(id).seed, 0xade0b876);
    site
}

/// What covers a tile, as one letter.
fn letter(tile: Tile) -> char {
    match tile.kind {
        TileKind::Wall(Dir::X) => '-',
        TileKind::Wall(Dir::Y) => '|',
        TileKind::Tower(RoofKind::Parapet) => 'T',
        TileKind::Tower(RoofKind::Pyramid) => 'P',
        TileKind::Gate => 'G',
        TileKind::Keep(KeepKind::Middle) => 'K',
        TileKind::Road { a: 0, b: 0, w: 0 } => '.',
        _ => '?',
    }
}

#[test]
fn castles_have_a_plan() {
    let site = castle();
    let plan: Vec<String> = (0..16)
        .map(|y| (0..16).map(|x| letter(site.tiles.get(Vec2::new(x, y)))).collect())
        .collect();
    assert_eq!(plan, vec![
        "T---TGGGT------T",
        "|..............|",
        "|..............|",
        "|..............|",
        "|..............|",
        "|....P||||P....|",
        "|....|KKKK|....|",
        "|....|KKKK|....|",
        "|....|KKKK|....|",
        "|....|KKKK|....|",
        "|....P||||P....|",
        "|..............|",
        "|..............|",
        "|..............|",
        "|..............|",
        "T--------------T",
    ]);
}

#[test]
fn castles_own_their_tiles() {
    let site = castle();
    for x in -2..18 {
        for y in -2..18 {
            let tile = site.tiles.get(Vec2::new(x, y));
            let inside = 0 <= x && x < 16 && 0 <= y && y < 16;
            assert_eq!(tile.plot.is_some(), inside);
            assert_eq!(tile.hard_alt, if inside { Some(20) } else { None });
        }
    }
    assert_eq!(site.tiles.bounds, Aabr { min: Vec2::zero(), max: Vec2::new(15, 15) });
}

#[test]
fn gates_are_three_wide() {
    let area = Aabr { min: Vec2::new(-20, 3), max: Vec2::new(-3, 21) };
    assert_eq!(
        castle_gate(area, 7),
        Aabr { min: Vec2::new(-14, 3), max: Vec2::new(-11, 4) }
    );
}

#[test]
fn rims_are_closed() {
    let site = castle();
    for n in 0..16 {
        for p in [Vec2::new(n, 0), Vec2::new(n, 15), Vec2::new(0, n), Vec2::new(15, n)] {
            assert!(site.tiles.get(p).is_obstacle());
        }
    }
}
