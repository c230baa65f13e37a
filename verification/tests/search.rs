use rand::seq::SliceRandom;
use rand::{Rng, SeedableRng};
use rand_chacha::ChaChaRng;
use site_plan::search::AreaSearch;
use site_plan::town::SearchPlan;
use site_plan::{Aabr, Site, SiteRng, Tile, TileKind, Vec2};

fn tile(kind: TileKind) -> Tile {
    Tile { kind, plot: None, hard_alt: None }
}

fn area(x0: i32, y0: i32, x1: i32, y1: i32) -> Aabr {
    Aabr { min: Vec2::new(x0, y0), max: Vec2::new(x1, y1) }
}

#[test]
fn doors_face_roads() {
    let mut site = Site::default();
    assert_eq!(site.road_access(Vec2::zero()), None);
    site.tiles.set(Vec2::new(-1, 0), tile(TileKind::Path));
    assert_eq!(site.road_access(Vec2::zero()), Some(Vec2::new(-1, 0)));
    site.tiles.set(Vec2::new(0, -1), tile(TileKind::Plaza));
    assert_eq!(site.road_access(Vec2::zero()), Some(Vec2::new(0, -1)));
    site.tiles.set(Vec2::new(1, 0), tile(TileKind::Road { a: 0, b: 0, w: 0 }));
    assert_eq!(site.road_access(Vec2::zero()), Some(Vec2::new(1, 0)));
    site.tiles.set(Vec2::new(0, 1), tile(TileKind::Building));
    assert_eq!(site.road_access(Vec2::zero()), Some(Vec2::new(1, 0)));
    site.tiles.set(Vec2::new(0, 1), tile(TileKind::Path));
    assert_eq!(site.road_access(Vec2::zero()), Some(Vec2::new(0, 1)));
}

#[test]
fn doors_at_the_edge_of_the_world_face_nothing() {
    assert_eq!(Site::default().road_access(Vec2::new(i32::MAX, i32::MIN)), None);
}

#[test]
fn the_first_area_by_a_road_is_found() {
    let mut site = Site::default();
    site.tiles.set(Vec2::new(5, 1), tile(TileKind::Path));
    let near = vec![Vec2::zero(), Vec2::new(5, 0), Vec2::new(4, 1), Vec2::new(6, 1)];
    let grown = vec![Some(area(0, 0, 2, 2)), None, Some(area(3, 1, 5, 3)), Some(area(6, 1, 9, 9))];
    assert_eq!(
        site.find_aabr(&near, &grown),
        Some((area(3, 1, 5, 3), Vec2::new(4, 1), Vec2::new(1, 0)))
    );
    assert_eq!(site.find_aabr(&near[..2].to_vec(), &grown[..2].to_vec()), None);
    assert_eq!(site.find_aabr(&Vec::new(), &Vec::new()), None);
}

#[test]
fn without_plazas_and_roads_there_is_no_roadside() {
    let site = Site::default();
    let mut ours = SiteRng::from_seed([1; 32]);
    for n in 1..20 {
        assert_eq!(site.roadside_pos(&mut ours, Vec2::new(1, 0)), None);
        assert_eq!(ours.pos, n);
    }
}

#[test]
fn roadsides_are_beside_plazas_and_roads() {
    let mut site = Site::default();
    let mut rng = SiteRng::from_seed([0; 32]);
    site.make_plaza(&mut rng, Vec2::new(3, 4), 2, 0);
    site.make_plaza(&mut rng, Vec2::new(40, 4), 1, 0);
    let path = vec![Vec2::new(10, 10), Vec2::new(11, 10)];
    let alts = vec![0; 8];
    site.create_road(&mut rng, Vec2::new(10, 10), Some(path.clone()), 2, &alts);

    let mut ours = SiteRng::from_seed([1; 32]);
    let mut theirs = ChaChaRng::from_seed([1; 32]);
    let dir = Vec2::new(1, -1);
    for _ in 0..40 {
        let expected = if theirs.gen::<bool>() {
            match *[0usize, 1].choose(&mut theirs).unwrap() {
                0 => Vec2::new(3 + 5, 4 - 5),
                _ => Vec2::new(40 + 3, 4 - 3),
            }
        } else {
            [0usize].choose(&mut theirs).unwrap();
            let node = path.choose(&mut theirs).unwrap();
            Vec2::new(node.x + 1, node.y - 1)
        };
        assert_eq!(site.roadside_pos(&mut ours, dir), Some(expected));
        assert_eq!(ours.pos, theirs.get_word_pos());
    }
}

#[test]
fn area_searches_keep_the_first_area() {
    let mut site = Site::default();
    let mut rng = SiteRng::from_seed([0; 32]);
    site.make_plaza(&mut rng, Vec2::zero(), 1, 0);
    let plan = SearchPlan { attempts: 32, min_area: 4, max_area: 9, min_width: 2, min_height: 2 };
    let mut search = AreaSearch::start(plan);
    let near = vec![Vec2::new(2, 0)];
    let (first, second) = (area(2, 0, 4, 2), area(2, 0, 5, 3));
    search.look(&site, &near, &vec![Some(first)]);
    assert_eq!(search.found, None);
    while search.pos.is_none() {
        let pos = search.next_pos(&site, &mut rng, Vec2::new(1, 0));
        assert_eq!(search.pos, pos);
    }
    let left = search.attempts;
    search.look(&site, &near, &vec![Some(first)]);
    search.look(&site, &near, &vec![Some(second)]);
    assert_eq!(search.found, Some((first, Vec2::new(2, 0), Vec2::new(-1, 0))));
    assert!(search.is_over() && search.pos.is_none());
    let before = rng;
    assert_eq!(search.next_pos(&site, &mut rng, Vec2::new(1, 0)), None);
    assert_eq!((search.attempts, rng), (left, before));
}

#[test]
fn area_searches_go_on_where_nothing_suits() {
    let mut site = Site::default();
    let mut rng = SiteRng::from_seed([0; 32]);
    site.make_plaza(&mut rng, Vec2::zero(), 1, 0);
    let plan = SearchPlan { attempts: 9, min_area: 4, max_area: 9, min_width: 2, min_height: 2 };
    let mut search = AreaSearch::start(plan);
    let mut looked = 0;
    while !search.is_over() {
        if search.next_pos(&site, &mut rng, Vec2::new(1, 0)).is_some() {
            search.look(&site, &vec![Vec2::new(2, 0)], &vec![None]);
            looked += 1;
        }
    }
    assert!(looked > 0 && search.found.is_none() && search.attempts == 0);
}

#[test]
fn area_searches_end() {
    let site = Site::default();
    let mut rng = SiteRng::from_seed([0; 32]);
    let plan = SearchPlan { attempts: 3, min_area: 4, max_area: 9, min_width: 2, min_height: 2 };
    let mut search = AreaSearch::start(plan);
    for left in [2, 1, 0] {
        assert!(!search.is_over());
        assert_eq!(search.next_pos(&site, &mut rng, Vec2::new(1, 0)), None);
        assert_eq!(search.attempts, left);
    }
    assert!(search.is_over());
    assert_eq!(rng.pos, 3);
}
