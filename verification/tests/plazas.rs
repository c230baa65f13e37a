use rand::{Rng, SeedableRng};
use rand_chacha::ChaChaRng;
use site_plan::plaza::{plaza_radius, PlazaLinks, PlazaSearch};
use site_plan::{Aabr, Id, PlotKind, Site, SiteRng, Tile, TileKind, Vec2};

fn with_plazas(at: &[(i32, i32)]) -> Site {
    let mut site = Site::default();
    let mut rng = SiteRng::from_seed([0; 32]);
    for &(x, y) in at {
        site.make_plaza(&mut rng, Vec2::new(x, y), 1, 4);
    }
    site
}

#[test]
fn radii_are_drawn() {
    let mut ours = SiteRng::from_seed([6; 32]);
    let mut theirs = ChaChaRng::from_seed([6; 32]);
    for _ in 0..50 {
        assert_eq!(plaza_radius(&mut ours), theirs.gen_range(1..4));
    }
}

#[test]
fn plazas_are_laid_out() {
    let mut site = Site::default();
    let mut rng = SiteRng::from_seed([0; 32]);
    let id = site.make_plaza(&mut rng, Vec2::new(5, -3), 2, 40);
    assert_eq!(site.plazas(), &vec![id]);
    assert!(matches!(site.plot(id).kind, PlotKind::Plaza));
    assert_eq!(site.plot(id).root_tile, Vec2::new(5, -3));
    assert_eq!(site.plot(id).tiles.len(), 25);
    assert_eq!(site.plot(id).seed, 0xade0b876);
    let tile = Tile { kind: TileKind::Plaza, plot: Some(id), hard_alt: Some(40) };
    for x in 0..12 {
        for y in -8..3 {
            let inside = 3 <= x && x <= 7 && -5 <= y && y <= -1;
            let expected = if inside { tile } else { Tile::empty() };
            assert_eq!(site.tiles.get(Vec2::new(x, y)), expected);
        }
    }
    assert_eq!(site.tiles.bounds, Aabr { min: Vec2::new(0, -5), max: Vec2::new(7, 0) });
}

#[test]
fn anchors_are_picked_among_plazas() {
    let mut rng = SiteRng::from_seed([4; 32]);
    assert_eq!(Site::default().plaza_anchor(&mut rng), None);
    let site = with_plazas(&[(0, 0), (20, 0)]);
    let mut seen = Vec::new();
    for _ in 0..30 {
        let anchor = site.plaza_anchor(&mut rng).unwrap();
        assert!(anchor == Vec2::zero() || anchor == Vec2::new(20, 0));
        if !seen.contains(&anchor) {
            seen.push(anchor);
        }
    }
    assert_eq!(seen.len(), 2);
}

#[test]
fn the_first_plaza_goes_to_the_middle() {
    let site = Site::default();
    let mut rng = SiteRng::from_seed([8; 32]);
    let mut theirs = ChaChaRng::from_seed([8; 32]);
    for _ in 0..20 {
        let draw = theirs.gen_range(0..48);
        let expected = if draw > 0 { Some(Vec2::zero()) } else { None };
        assert_eq!(site.plaza_candidate(&mut rng, None, Vec2::new(9, 9), 1), expected);
    }
}

#[test]
fn obstacles_rule_places_out() {
    let mut site = Site::default();
    site.tiles.set(Vec2::zero(), Tile { kind: TileKind::Building, plot: None, hard_alt: None });
    let mut rng = SiteRng::from_seed([8; 32]);
    assert_eq!(site.plaza_candidate(&mut rng, None, Vec2::zero(), 1), None);
    assert_eq!(rng.pos, 0);
}

#[test]
fn near_plazas_rule_places_out() {
    let site = with_plazas(&[(0, 0)]);
    // The square of the least distance, for each radius.
    for (radius, least) in [(1, 80), (2, 152), (3, 248)] {
        for x in 0..20 {
            for y in 0..20 {
                let mut rng = SiteRng::from_seed([8; 32]);
                site.plaza_candidate(&mut rng, Some(Vec2::zero()), Vec2::new(x, y), radius);
                assert_eq!(rng.pos > 0, x * x + y * y >= least);
            }
        }
    }
}

#[test]
fn places_far_out_are_less_likely() {
    let site = Site::default();
    let mut ours = SiteRng::from_seed([8; 32]);
    let mut theirs = ChaChaRng::from_seed([8; 32]);
    let anchor = Some(Vec2::new(10, 10));
    for n in 0..60 {
        let tile = Vec2::new(n - 10, -30);
        let expected = if theirs.gen_range(0..48) > tile.x.abs().max(30) { Some(tile) } else { None };
        let offset = Vec2::new(tile.x - 10, tile.y - 10);
        assert_eq!(site.plaza_candidate(&mut ours, anchor, offset, 2), expected);
    }
}

#[test]
fn no_plaza_is_far_out() {
    let site = Site::default();
    let mut rng = SiteRng::from_seed([8; 32]);
    for _ in 0..200 {
        assert_eq!(site.plaza_candidate(&mut rng, Some(Vec2::zero()), Vec2::new(-47, 0), 1), None);
    }
}

#[test]
fn searches_end() {
    let mut site = Site::default();
    site.tiles.set(Vec2::zero(), Tile { kind: TileKind::Gate, plot: None, hard_alt: None });
    let mut rng = SiteRng::from_seed([6; 32]);
    let mut search = PlazaSearch::start(&mut rng);
    assert_eq!(search.radius, ChaChaRng::from_seed([6; 32]).gen_range(1..4));
    let mut tries = 0;
    while search.attempts > 0 {
        assert_eq!(search.try_place(&site, &mut rng, None, Vec2::zero()), None);
        tries += 1;
    }
    assert_eq!(tries, 32);
    let clear = Site::default();
    assert_eq!(search.try_place(&clear, &mut rng, None, Vec2::zero()), None);
}

#[test]
fn searches_find_places() {
    let site = Site::default();
    let mut rng = SiteRng::from_seed([6; 32]);
    let mut search = PlazaSearch::start(&mut rng);
    let mut found = None;
    while found.is_none() && search.attempts > 0 {
        found = search.try_place(&site, &mut rng, None, Vec2::zero());
    }
    assert_eq!(found, Some(Vec2::zero()));
    assert_eq!(search.found, found);
    assert!(search.is_over());
    let before = (search, rng);
    assert_eq!(search.try_place(&site, &mut rng, None, Vec2::zero()), None);
    assert_eq!((search, rng), before);
}

#[test]
fn found_plazas_are_laid() {
    let mut site = Site::default();
    let mut rng = SiteRng::from_seed([0; 32]);
    let search = PlazaSearch { radius: 2, attempts: 3, found: None };
    assert_eq!(search.lay(&mut site, &mut rng, 4), None);
    assert_eq!(rng.pos, 0);
    let search = PlazaSearch { found: Some(Vec2::new(6, 7)), ..search };
    let id = search.lay(&mut site, &mut rng, 4).unwrap();
    assert_eq!(site.plot(id).root_tile, Vec2::new(6, 7));
    assert_eq!(site.plot(id).tiles.len(), 25);
    assert_eq!(site.plazas(), &vec![id]);
}

#[test]
fn the_nearest_plaza_is_joined() {
    let site = with_plazas(&[(30, 0), (0, 10), (10, 0), (0, 0)]);
    let from = Id { idx: 3 };
    let all = vec![true; 4];
    let mut pathed = Vec::new();
    // Of two at the same distance the older comes first.
    assert_eq!(site.next_plaza(from, Vec2::zero(), &pathed, &all), Some(Id { idx: 1 }));
    pathed.push(Id { idx: 1 });
    assert_eq!(site.next_plaza(from, Vec2::zero(), &pathed, &all), Some(Id { idx: 2 }));
    let some = vec![true, true, false, true];
    assert_eq!(site.next_plaza(from, Vec2::zero(), &pathed, &some), Some(Id { idx: 0 }));
    pathed.push(Id { idx: 0 });
    assert_eq!(site.next_plaza(from, Vec2::zero(), &pathed, &some), None);
}

#[test]
fn links_are_counted() {
    let site = with_plazas(&[(30, 0), (0, 10), (10, 0), (0, 0)]);
    let all = vec![true; 4];
    let mut links = PlazaLinks::start(Id { idx: 3 }, Vec2::zero(), 2);
    assert_eq!(links.next_link(&site, &all), Some(Id { idx: 1 }));
    assert_eq!(links.next_link(&site, &all), Some(Id { idx: 2 }));
    assert_eq!(links.next_link(&site, &all), None);
    assert_eq!(links.pathed, vec![Id { idx: 1 }, Id { idx: 2 }]);
}

#[test]
fn links_end_where_nothing_is_left() {
    let site = with_plazas(&[(30, 0), (0, 0)]);
    let mut links = PlazaLinks::start(Id { idx: 1 }, Vec2::zero(), 9);
    assert_eq!(links.next_link(&site, &vec![false; 2]), None);
    assert_eq!(links.left, 0);
    assert_eq!(links.next_link(&site, &vec![true; 2]), None);
}

#[test]
fn plazas_share_no_tile() {
    for x in 0..20 {
        for y in 0..20 {
            let mut site = with_plazas(&[]);
            let mut rng = SiteRng::from_seed([8; 32]);
            site.make_plaza(&mut rng, Vec2::zero(), 3, 0);
            let before = rng;
            site.plaza_candidate(&mut rng, Some(Vec2::zero()), Vec2::new(x, y), 3);
            if rng != before {
                assert!(x > 6 || y > 6);
            }
        }
    }
}
