use rand::{Rng, SeedableRng};
use rand_chacha::ChaChaRng;
use site_plan::bridge::{Approaches, Bridge, BridgePhase, BridgePlan, BridgeShape};
use site_plan::{Aabr, Dir, PlotKind, Site, SiteRng, Tile, TileKind, Vec2};

fn area(x0: i32, y0: i32, x1: i32, y1: i32) -> Aabr {
    Aabr { min: Vec2::new(x0, y0), max: Vec2::new(x1, y1) }
}

fn started(start: Vec2, end: Vec2) -> Bridge {
    let mut rng = SiteRng::from_seed([2; 32]);
    let (bridge, own) = Site::generate_bridge(&mut rng, start, end);
    assert_eq!(rng.pos, 32);
    let seed = ChaChaRng::from_seed([2; 32]).gen::<[u8; 32]>();
    assert_eq!(own, SiteRng::from_seed(seed));
    bridge
}

#[test]
fn bridges_start_between_chunks() {
    let mut bridge = started(Vec2::zero(), Vec2::new(4, 0));
    assert_eq!(bridge.phase, BridgePhase::Name);
    assert_eq!(bridge.site.origin, Vec2::new(80, 16));
    bridge.take_name("Oakford");
    assert_eq!(bridge.site.name(), "Bridge of Oakford");
    assert_eq!(bridge.phase, BridgePhase::Shape);
    assert_eq!(bridge.plan, BridgePlan {
        start_tile: Vec2::new(-11, 0),
        end_tile: Vec2::new(10, 0),
        orth: Vec2::new(0, 1),
        start_aabr: area(-11, -1, 11, 2),
    });
}

#[test]
fn origins_round_toward_zero() {
    let bridge = started(Vec2::new(-1, -1), Vec2::new(-2, -1));
    assert_eq!(bridge.site.origin, Vec2::new(-32, -16));
}

#[test]
fn slanted_bridges_are_widened_both_ways() {
    let plan = started(Vec2::zero(), Vec2::new(2, -2)).plan;
    assert_eq!(plan.orth, Vec2::new(1, 1));
    assert_eq!(plan.start_tile, Vec2::new(-6, 5));
    assert_eq!(plan.end_tile, Vec2::new(5, -6));
    assert_eq!(plan.start_aabr, area(-7, -7, 7, 7));
}

#[test]
fn bridges_cover_their_span() {
    let Bridge { mut site, plan, .. } = started(Vec2::zero(), Vec2::new(4, 0));
    let shape = |width| BridgeShape {
        start: Vec2::new(30, 16),
        end: Vec2::new(130, 16),
        width,
        dir: Dir::X,
    };
    assert_eq!(site.bridge_area(plan, shape(2)).1, area(-9, 0, 9, 1));
    assert_eq!(site.bridge_area(plan, shape(9)).1, area(-9, -2, 9, 3));
    let (start, covered) = site.bridge_area(plan, shape(8));
    assert_eq!((start, covered), (Vec2::new(-9, 0), area(-9, -1, 9, 2)));
    let mut rng = SiteRng::from_seed([0; 32]);
    let id = site.raise_bridge(&mut rng, start, covered);
    assert!(matches!(site.plot(id).kind, PlotKind::Bridge));
    assert_eq!(site.plot(id).root_tile, start);
    assert_eq!(site.plot(id).tiles.len(), 54);
    assert_eq!(
        site.tiles.get(Vec2::new(8, 1)),
        Tile { kind: TileKind::Bridge, plot: Some(id), hard_alt: None }
    );
}

#[test]
fn roads_lead_onto_bridges() {
    let plan = started(Vec2::zero(), Vec2::new(4, 0)).plan;
    let covered = area(-9, -1, 9, 2);
    assert_eq!(plan.approaches(covered, Dir::X), Approaches {
        ahead_from: Vec2::new(10, 0),
        ahead_to: Vec2::new(11, 0),
        behind_from: Vec2::new(-10, 0),
        behind_to: Vec2::new(-11, 0),
    });
    assert_eq!(plan.approaches(covered, Dir::NegY), Approaches {
        ahead_from: Vec2::new(0, -2),
        ahead_to: Vec2::new(0, -1),
        behind_from: Vec2::new(0, 3),
        behind_to: Vec2::new(0, 2),
    });
}

#[test]
fn bridges_are_made_step_by_step() {
    let mut rng = SiteRng::from_seed([0; 32]);
    let mut bridge = started(Vec2::zero(), Vec2::new(4, 0));
    bridge.take_name("Oakford");
    assert_eq!(bridge.road_due(), None);
    bridge.take_shape(BridgeShape {
        start: Vec2::new(30, 16),
        end: Vec2::new(130, 16),
        width: 8,
        dir: Dir::X,
    });
    assert_eq!(bridge.road_due(), Some((Vec2::new(10, 0), Vec2::new(11, 0))));
    let path = vec![Vec2::new(10, 0), Vec2::new(11, 0)];
    let road = bridge.take_road(&mut rng, Some(path), &vec![5; 8]).unwrap();
    assert_eq!(bridge.road_due(), Some((Vec2::new(-10, 0), Vec2::new(-11, 0))));
    assert_eq!(bridge.take_road(&mut rng, None, &Vec::new()), None);
    assert_eq!(bridge.road_due(), None);
    let id = bridge.raise(&mut rng);
    assert_eq!(bridge.phase, BridgePhase::Done);
    assert_eq!(rng.pos, 2);
    let site = bridge.finish();
    assert_eq!(site.roads, vec![road]);
    assert_eq!(site.plot(road).root_tile, Vec2::new(10, 0));
    assert_eq!(site.plots().len(), 2);
    assert!(matches!(site.plot(id).kind, PlotKind::Bridge));
    assert_eq!(site.tiles.get(Vec2::new(8, 0)).kind, TileKind::Bridge);
    assert_eq!(site.tiles.get(Vec2::new(11, 0)).plot, Some(road));
}
