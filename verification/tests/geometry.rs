use site_plan::{Aabr, Dir, Vec2};

fn area(x0: i32, y0: i32, x1: i32, y1: i32) -> Aabr {
    Aabr { min: Vec2::new(x0, y0), max: Vec2::new(x1, y1) }
}

fn vek_area(a: Aabr) -> vek::Aabr<i32> {
    vek::Aabr {
        min: vek::Vec2::new(a.min.x, a.min.y),
        max: vek::Vec2::new(a.max.x, a.max.y),
    }
}

#[test]
fn centers_round_toward_zero() {
    assert_eq!(area(-3, 2, 0, 5).center(), Vec2::new(-1, 3));
    assert_eq!(area(-4, -4, 1, 1).center(), Vec2::new(-1, -1));
    assert_eq!(area(-8, -8, 8, 8).center(), Vec2::zero());
}

#[test]
fn centers_agree_with_vek() {
    for x0 in -5..5 {
        for x1 in -5..9 {
            let a = area(x0, -x1, x1, x0 + 3);
            let c = vek_area(a).center();
            assert_eq!(a.center(), Vec2::new(c.x, c.y));
        }
    }
}

#[test]
fn distances_agree_with_vek() {
    for x in -4..4 {
        for y in -4..4 {
            let d = vek::Vec2::new(x, y).distance_squared(vek::Vec2::new(3, -7));
            assert_eq!(Vec2::new(x, y).distance_squared(Vec2::new(3, -7)), d as i128);
        }
    }
}

#[test]
fn distances_do_not_overflow() {
    let d = Vec2::new(i32::MIN, i32::MIN).distance_squared(Vec2::new(i32::MAX, i32::MAX));
    assert_eq!(d, 2 * (u32::MAX as i128) * (u32::MAX as i128));
}

#[test]
fn boxes_grow_to_points() {
    let a = area(0, 0, 2, 2);
    for x in -2..5 {
        let p = a.expanded_to_contain_point(Vec2::new(x, 1 - x));
        let q = vek_area(a).expanded_to_contain_point(vek::Vec2::new(x, 1 - x));
        assert_eq!(vek_area(p), q);
    }
}

#[test]
fn points_move() {
    assert_eq!(Vec2::new(3, 4).offset(-5, 1), Vec2::new(-2, 5));
}

#[test]
fn directions_have_opposites() {
    for dir in [Dir::X, Dir::Y, Dir::NegX, Dir::NegY] {
        assert_eq!(dir.opposite().opposite(), dir);
        let step = dir.to_vec2();
        assert_eq!(dir.opposite().to_vec2(), Vec2::new(-step.x, -step.y));
    }
    assert_eq!(Dir::NegY.to_vec2(), Vec2::new(0, -1));
}

#[test]
fn directions_select_sides() {
    let a = area(-2, -3, 4, 5);
    let p = Vec2::new(1, 1);
    assert_eq!(Dir::X.select_aabr_with(a, p), Vec2::new(4, 1));
    assert_eq!(Dir::NegX.select_aabr_with(a, p), Vec2::new(-2, 1));
    assert_eq!(Dir::Y.select_aabr_with(a, p), Vec2::new(1, 5));
    assert_eq!(Dir::NegY.select_aabr_with(a, p), Vec2::new(1, -3));
}
