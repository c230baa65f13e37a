use site_plan::obstacles::{wpos_is_hazard, PathNear, Probe, TileSurvey};
use site_plan::{Aabr, HazardKind, PlotKind, Site, SiteRng, TileKind, Vec2};

const CLEAR: Probe = Probe { near_water: Some(false), steep: None };
const WET: Probe = Probe { near_water: Some(true), steep: Some(7) };
const STEEP: Probe = Probe { near_water: Some(false), steep: Some(7) };
const OFF: Probe = Probe { near_water: None, steep: None };

fn survey(x: i32, y: i32, probes: Vec<Probe>, path: Option<PathNear>) -> TileSurvey {
    TileSurvey { tile: Vec2::new(x, y), probes, path }
}

fn kind(site: &Site, x: i32, y: i32) -> TileKind {
    site.tiles.get(Vec2::new(x, y)).kind
}

#[test]
fn water_comes_before_slopes() {
    assert_eq!(wpos_is_hazard(CLEAR), None);
    assert_eq!(wpos_is_hazard(WET), Some(HazardKind::Water));
    assert_eq!(wpos_is_hazard(STEEP), Some(HazardKind::Hill { gradient_bits: 7 }));
    assert_eq!(wpos_is_hazard(OFF), Some(HazardKind::Water));
}

#[test]
fn hazards_spoil_four_tiles() {
    let mut site = Site::default();
    site.demarcate_obstacles(&vec![survey(5, 5, vec![CLEAR, STEEP, WET], None)]);
    let hill = TileKind::Hazard(HazardKind::Hill { gradient_bits: 7 });
    for x in 0..8 {
        for y in 0..8 {
            let spoiled = (x == 3 || x == 4) && (y == 3 || y == 4);
            let expected = if spoiled { hill } else { TileKind::Empty };
            assert_eq!(kind(&site, x, y), expected);
        }
    }
}

#[test]
fn clear_ground_stays() {
    let mut site = Site::default();
    site.demarcate_obstacles(&vec![survey(5, 5, vec![CLEAR, CLEAR], None)]);
    assert_eq!(kind(&site, 4, 4), TileKind::Empty);
}

#[test]
fn paths_reach_tiles() {
    let near = |reach_squared| Some(PathNear { wpos: Vec2::new(37, 33), reach_squared });
    let mut site = Site::default();
    site.demarcate_obstacles(&vec![survey(5, 5, vec![], near(4))]);
    assert_eq!(kind(&site, 5, 5), TileKind::Empty);
    site.demarcate_obstacles(&vec![survey(5, 5, vec![], near(5))]);
    assert_eq!(kind(&site, 5, 5), TileKind::Path);
}

#[test]
fn later_surveys_win() {
    let path = Some(PathNear { wpos: Vec2::new(24, 24), reach_squared: 1 });
    let mut site = Site::default();
    site.demarcate_obstacles(&vec![
        survey(4, 4, vec![CLEAR], path),
        survey(5, 5, vec![WET], None),
    ]);
    assert_eq!(kind(&site, 4, 4), TileKind::Hazard(HazardKind::Water));
    site.demarcate_obstacles(&vec![
        survey(5, 5, vec![WET], None),
        survey(4, 4, vec![CLEAR], path),
    ]);
    assert_eq!(kind(&site, 4, 4), TileKind::Path);
    assert_eq!(kind(&site, 3, 4), TileKind::Hazard(HazardKind::Water));
}

#[test]
fn surveys_keep_plots_and_bounds() {
    let mut site = Site::default();
    let mut rng = SiteRng::from_seed([0; 32]);
    let area = Aabr { min: Vec2::new(3, 3), max: Vec2::new(5, 5) };
    let id = site.place(&mut rng, PlotKind::House, area, TileKind::Building, Some(2));
    let bounds = site.tiles.bounds;
    site.demarcate_obstacles(&vec![
        survey(5, 5, vec![WET], None),
        survey(100, 100, vec![WET], None),
    ]);
    let tile = site.tiles.get(Vec2::new(3, 3));
    assert_eq!(tile.kind, TileKind::Hazard(HazardKind::Water));
    assert_eq!((tile.plot, tile.hard_alt), (Some(id), Some(2)));
    assert_eq!(kind(&site, 99, 99), TileKind::Hazard(HazardKind::Water));
    assert_eq!(site.tiles.bounds, bounds);
}
