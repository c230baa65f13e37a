use site_plan::{Aabr, Dir, HazardKind, Id, KeepKind, RoofKind, Tile, TileGrid, TileKind, Vec2};

fn tile(kind: TileKind) -> Tile {
    Tile { kind, plot: Some(Id { idx: 3 }), hard_alt: Some(-4) }
}

#[test]
fn fresh_grids_are_empty() {
    let grid = TileGrid::new();
    assert_eq!(grid.get(Vec2::new(17, -250)), Tile::empty());
    assert_eq!(grid.bounds, Aabr { min: Vec2::zero(), max: Vec2::zero() });
}

#[test]
fn tiles_read_back() {
    let mut grid = TileGrid::new();
    grid.set(Vec2::new(-256, 271), tile(TileKind::Plaza));
    assert_eq!(grid.get(Vec2::new(-256, 271)), tile(TileKind::Plaza));
    assert_eq!(grid.get(Vec2::new(271, -256)), Tile::empty());
    assert_eq!(grid.bounds, Aabr { min: Vec2::new(-256, 0), max: Vec2::new(0, 271) });
}

#[test]
fn tiles_off_the_grid_are_not_kept() {
    let mut grid = TileGrid::new();
    grid.set(Vec2::new(272, 0), tile(TileKind::Plaza));
    grid.set(Vec2::new(0, -257), tile(TileKind::Plaza));
    assert_eq!(grid.get(Vec2::new(272, 0)), Tile::empty());
    assert_eq!(grid.get(Vec2::new(0, -257)), Tile::empty());
    assert_eq!(grid.bounds, Aabr { min: Vec2::new(0, -257), max: Vec2::new(272, 0) });
    assert_eq!(grid.get_xy(1 << 40, 0), Tile::empty());
}

#[test]
fn kinds_change_without_growing_bounds() {
    let mut grid = TileGrid::new();
    grid.set(Vec2::new(1, 1), tile(TileKind::Building));
    grid.set_kind(Vec2::new(1, 1), TileKind::Path);
    grid.set_kind(Vec2::new(9, 9), TileKind::Path);
    assert_eq!(grid.get(Vec2::new(1, 1)), tile(TileKind::Path));
    assert_eq!(
        grid.get(Vec2::new(9, 9)),
        Tile { kind: TileKind::Path, plot: None, hard_alt: None }
    );
    assert_eq!(grid.bounds, Aabr { min: Vec2::zero(), max: Vec2::new(1, 1) });
}

#[test]
fn tiles_are_sorted_by_use() {
    let hill = TileKind::Hazard(HazardKind::Hill { gradient_bits: 1.0f32.to_bits() });
    // Kind, empty, natural, road, building, obstacle.
    let table = [
        (TileKind::Empty, true, true, false, false, false),
        (TileKind::Hazard(HazardKind::Water), false, true, false, false, true),
        (hill, false, true, false, false, true),
        (TileKind::Field, false, false, false, false, false),
        (TileKind::Plaza, false, false, true, false, false),
        (TileKind::Road { a: 0, b: 1, w: 2 }, false, false, true, false, false),
        (TileKind::Path, false, false, true, false, false),
        (TileKind::Building, false, false, false, true, true),
        (TileKind::Castle, false, false, false, true, true),
        (TileKind::Wall(Dir::X), false, false, false, true, true),
        (TileKind::Tower(RoofKind::Parapet), false, false, false, true, true),
        (TileKind::Keep(KeepKind::Middle), false, false, false, true, true),
        (TileKind::Gate, false, false, false, true, true),
        (TileKind::GnarlingFortification, false, false, false, true, true),
        (TileKind::Bridge, false, false, false, false, false),
        (TileKind::AdletStronghold, false, true, false, true, true),
    ];
    for (kind, empty, natural, road, building, obstacle) in table {
        let t = tile(kind);
        assert_eq!(t.is_empty(), empty, "{:?}", kind);
        assert_eq!(t.is_natural(), natural, "{:?}", kind);
        assert_eq!(t.is_road(), road, "{:?}", kind);
        assert_eq!(t.is_building(), building, "{:?}", kind);
        assert_eq!(t.is_obstacle(), obstacle, "{:?}", kind);
    }
}
