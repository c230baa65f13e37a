use site_plan::render::{
    clip_to_chunk, column_tops, is_column_hidden, is_field_soil, plaza_block, road_block,
    road_column, BlockClass, BlockEdit, BlockKind, ColumnTrace, RoadSegment, FIELD_LEVELS,
    PLAZA_LEVELS, ROAD_LEVELS,
};
use site_plan::{Aabr, Id, Plot, PlotKind, Site, SiteRng, Tile, TileKind, Vec2};

fn area(x0: i32, y0: i32, x1: i32, y1: i32) -> Aabr {
    Aabr { min: Vec2::new(x0, y0), max: Vec2::new(x1, y1) }
}

fn rng() -> SiteRng {
    SiteRng::from_seed([0; 32])
}

#[test]
fn chunks_show_tiles_around_them() {
    let site = Site::new(Vec2::new(10, 10), String::new());
    let plan = site.render(Vec2::new(32, 0));
    assert_eq!(plan.tiles, area(2, -3, 12, 7));
    assert!(plan.plots.is_empty());
}

#[test]
fn plots_show_once_and_in_order() {
    let mut site = Site::default();
    let mut rng = rng();
    site.place(&mut rng, PlotKind::House, area(6, 0, 8, 2), TileKind::Building, None);
    site.make_plaza(&mut rng, Vec2::new(3, 3), 1, 0);
    site.place(&mut rng, PlotKind::Tavern, area(0, 0, 1, 1), TileKind::Building, None);
    site.place(&mut rng, PlotKind::Castle, area(40, 40, 60, 60), TileKind::Building, None);
    let plan = site.render(Vec2::zero());
    assert_eq!(plan.plots, vec![Id { idx: 0 }, Id { idx: 2 }]);
    let plan = site.render(Vec2::new(240, 240));
    assert_eq!(plan.plots, vec![Id { idx: 3 }]);
}

#[test]
fn giant_trees_show_everywhere() {
    let site =
        Site::generate_giant_tree(&mut rng(), Vec2::zero(), &Vec::new(), String::new(), 2);
    assert_eq!(site.render(Vec2::new(6400, 6400)).plots, vec![Id { idx: 0 }]);
}

#[test]
fn chunks_at_the_edge_of_the_world_show() {
    let site = Site::default();
    let plan = site.render(Vec2::new(i32::MAX, i32::MIN));
    assert_eq!(plan.tiles.max.x, (i32::MAX as i64 + 34).div_euclid(6) as i32 + 3);
    assert_eq!(plan.tiles.min.y, i32::MIN.div_euclid(6) - 1);
}

#[test]
fn paved_tiles_spread_a_little() {
    let mut site = Site::new(Vec2::new(100, 200), String::new());
    site.make_plaza(&mut rng(), Vec2::zero(), 1, 0);
    assert_eq!(site.render_tile(Vec2::new(1, -1)), Some(area(105, 193, 114, 202)));
    assert_eq!(site.render_tile(Vec2::new(2, -1)), None);
}

#[test]
fn lone_tiles_are_not_paved() {
    let mut site = Site::default();
    let path = Tile { kind: TileKind::Path, plot: None, hard_alt: None };
    site.tiles.set(Vec2::zero(), path);
    assert_eq!(site.render_tile(Vec2::zero()), None);
    site.tiles.set(Vec2::new(0, -1), Tile { hard_alt: Some(1), ..path });
    assert_eq!(site.render_tile(Vec2::zero()), None);
    site.tiles.set(Vec2::new(0, -1), path);
    assert_eq!(site.render_tile(Vec2::zero()), Some(area(-1, -1, 8, 8)));
}

#[test]
fn paved_areas_agree_with_vek() {
    let mut site = Site::default();
    site.make_plaza(&mut rng(), Vec2::zero(), 1, 0);
    let shown = site.render_tile(Vec2::zero()).unwrap();
    let tile = vek::Aabr { min: vek::Vec2::new(0.0f32, 0.0), max: vek::Vec2::new(6.0, 6.0) };
    for x in -6..12 {
        for y in -6..12 {
            let near = tile.distance_to_point(vek::Vec2::new(x as f32, y as f32)) <= 1.5;
            let inside = shown.min.x <= x && x < shown.max.x && shown.min.y <= y && y < shown.max.y;
            assert_eq!(near, inside);
        }
    }
}

#[test]
fn roads_are_seen_from_beside() {
    let mut site = Site::default();
    let path = vec![Vec2::new(0, 0), Vec2::new(1, 0), Vec2::new(2, 0)];
    let alts: Vec<i32> = (0..12).collect();
    site.create_road(&mut rng(), Vec2::zero(), Some(path), 2, &alts);
    assert_eq!(site.near_roads(Vec2::new(3, 8)), vec![RoadSegment {
        start: Vec2::new(0, 0),
        end: Vec2::new(1, 0),
        w: 2,
        hard_alt: Some(3),
    }]);
    let around = site.near_roads(Vec2::new(8, 3));
    let ends: Vec<(Vec2, Vec2)> = around.iter().map(|road| (road.start, road.end)).collect();
    assert_eq!(ends, vec![
        (Vec2::new(1, 0), Vec2::new(2, 0)),
        (Vec2::new(0, 0), Vec2::new(2, 0)),
        (Vec2::new(0, 0), Vec2::new(1, 0)),
    ]);
    assert!(site.near_roads(Vec2::new(300, 300)).is_empty());
}

#[test]
fn castle_courts_are_no_roads() {
    let mut site = Site::default();
    site.raise_castle(&mut rng(), area(0, 0, 16, 16), 6, 0);
    assert!(site.near_roads(Vec2::new(15, 15)).is_empty());
}

#[test]
fn lamps_are_spread_out() {
    let site = Site::new(Vec2::new(50, 60), String::new());
    let lamp = |x, y| site.is_lamp_post(site.tile_wpos(Vec2::new(x, y)));
    assert!(lamp(0, 0) && lamp(4, 0) && lamp(1, 2) && lamp(-1, -2));
    assert!(!lamp(1, 0) && !lamp(2, 0) && !lamp(2, 2) && !lamp(0, 2) && !lamp(-1, 0));
    assert!(!site.is_lamp_post(Vec2::new(51, 60)));
    assert!(!site.is_lamp_post(Vec2::new(50, 61)));
}

#[test]
fn plazas_pave_blocks() {
    assert_eq!(plaza_block(BlockClass::Snow), BlockEdit::Vacate);
    assert_eq!(plaza_block(BlockClass::Open), BlockEdit::Vacate);
    assert_eq!(plaza_block(BlockClass::Terrain), BlockEdit::Earth);
    assert_eq!(plaza_block(BlockClass::Solid), BlockEdit::Keep);
}

#[test]
fn roads_pave_blocks() {
    let empty = BlockEdit::VacateWith { lamp: false };
    let lamp = BlockEdit::VacateWith { lamp: true };
    assert_eq!(road_block(BlockClass::Snow, true, true), (lamp, false));
    assert_eq!(road_block(BlockClass::Open, true, true), (lamp, false));
    assert_eq!(road_block(BlockClass::Open, true, false), (empty, false));
    assert_eq!(road_block(BlockClass::Open, false, true), (empty, false));
    assert_eq!(road_block(BlockClass::Terrain, true, true), (BlockEdit::Earth, true));
    assert_eq!(road_block(BlockClass::Solid, false, true), (BlockEdit::Keep, false));
}

#[test]
fn columns_have_one_lamp() {
    let classes = vec![
        BlockClass::Terrain,
        BlockClass::Solid,
        BlockClass::Snow,
        BlockClass::Terrain,
        BlockClass::Open,
    ];
    assert_eq!(road_column(&classes, true), vec![
        BlockEdit::Earth,
        BlockEdit::Keep,
        BlockEdit::VacateWith { lamp: true },
        BlockEdit::Earth,
        BlockEdit::VacateWith { lamp: false },
    ]);
    assert_eq!(road_column(&classes, false)[2], BlockEdit::VacateWith { lamp: false });
}

#[test]
fn beds_have_levels() {
    assert_eq!(ROAD_LEVELS, (-6, 4));
    assert_eq!(PLAZA_LEVELS, (-8, 6));
    assert_eq!(FIELD_LEVELS, (-4, 5));
}

#[test]
fn fields_vary_in_colour() {
    let mut site = Site::default();
    let id = site.create_plot(Plot {
        kind: PlotKind::House,
        root_tile: Vec2::zero(),
        tiles: Vec::new(),
        seed: 70,
    });
    let field = Tile { kind: TileKind::Field, plot: None, hard_alt: None };
    site.tiles.set(Vec2::zero(), field);
    assert_eq!(site.field_green(Vec2::new(5, 5)), Some(5));
    site.tiles.set(Vec2::zero(), Tile { plot: Some(id), ..field });
    assert_eq!(site.field_green(Vec2::new(5, 5)), Some(11));
    assert_eq!(site.field_green(Vec2::new(6, 5)), None);
}

#[test]
fn fields_are_made_of_soil() {
    let soils =
        [BlockKind::Grass, BlockKind::Earth, BlockKind::Sand, BlockKind::Snow, BlockKind::Rock];
    for kind in soils {
        assert!(is_field_soil(kind));
    }
    assert!(!is_field_soil(BlockKind::Other));
}

#[test]
fn higher_plots_hide_lower_ones() {
    assert!(is_column_hidden(Some(5), Some(4)));
    assert!(!is_column_hidden(Some(4), Some(4)));
    assert!(!is_column_hidden(None, Some(4)));
    assert!(!is_column_hidden(Some(5), None));
}

#[test]
fn areas_are_clipped() {
    assert_eq!(clip_to_chunk(area(-5, 10, 40, 20), area(0, 0, 32, 32)), area(0, 10, 32, 20));
}

#[test]
fn tops_are_found() {
    let tops = column_tops(&vec![Some('a'), Some('b'), None, None, Some('c')]);
    assert_eq!(tops, vec![(2, 'b'), (5, 'c')]);
    assert!(column_tops::<char>(&vec![None, None]).is_empty());
}

#[test]
fn traces_follow_columns() {
    let mut trace = ColumnTrace::new();
    assert_eq!(trace.step(Some('a')), None);
    assert_eq!(trace.step(Some('b')), None);
    assert_eq!(trace.step(None), Some('b'));
    assert_eq!(trace.step(None), None);
    assert_eq!(trace.step(Some('c')), None);
    assert_eq!(trace.finish(), Some('c'));
}

#[test]
fn some_kinds_stand_out() {
    assert!(PlotKind::House.has_structure() && PlotKind::Bridge.has_structure());
    assert!(!PlotKind::Plaza.has_structure() && !PlotKind::Road(Vec::new()).has_structure());
    assert!(PlotKind::GiantTree.has_entities_on_top());
    assert!(!PlotKind::CliffTower.has_entities_on_top());
}
