//! Roads: laying them over empty tiles, and what stands in their way.

use crate::geom::{is_hull, Aabr, Vec2};
use crate::plot::{Id, Plot, PlotKind};
use crate::rng::SiteRng;
use crate::site::{is_bounds_with, tile_ok, Site};
use crate::tile::{on_grid, Tile, TileGrid, TileKind};
use vstd::prelude::*;

verus! {

/// How many steps the search for the path of a road may take.
pub const MAX_ITERS: usize = 4096;

/// What it costs a road to turn.
pub const TURN_COST: u32 = 35;

/// How far a road of width `w` reaches from its nodes: to `reach - 1` up, to `-reach` down.
pub open spec fn road_reach(w: u16) -> int {
    w as int / 2
}

/// Whether a road of width `w` covers `(x, y)` around a node.
pub open spec fn covers(node: Vec2, w: u16, x: int, y: int) -> bool {
    &&& -road_reach(w) <= x - node.x < road_reach(w)
    &&& -road_reach(w) <= y - node.y < road_reach(w)
}

/// The first node of a path around which a road of width `w` covers `(x, y)`; the number of nodes
/// if there is none.
pub open spec fn first_cover(path: Seq<Vec2>, w: u16, x: int, y: int) -> int
    decreases path.len(),
{
    if path.len() == 0 {
        0
    } else {
        let earlier = first_cover(path.drop_last(), w, x, y);
        if earlier < path.len() - 1 {
            earlier
        } else if covers(path.last(), w, x, y) {
            path.len() - 1
        } else {
            path.len() as int
        }
    }
}

/// The number of tiles that a road of width `w` covers around each node.
pub open spec fn cells_per_node(w: u16) -> int {
    (2 * road_reach(w)) * (2 * road_reach(w))
}

/// Which of the tiles around the nodes of a path, node by node and row by row, `(x, y)` is
/// around node `i`.
pub open spec fn cell_number(path: Seq<Vec2>, w: u16, i: int, x: int, y: int) -> int {
    let n = 2 * road_reach(w);
    (i * n + (y - path[i].y + road_reach(w))) * n + (x - path[i].x + road_reach(w))
}

/// The tile that a road lays around node `i` of its path: it leads from the node before to the
/// node after, as far as there are such.
pub open spec fn road_tile(path: Seq<Vec2>, w: u16, i: int, id: Id, alt: i32) -> Tile {
    Tile {
        kind: TileKind::Road {
            a: (if i == 0 {
                0
            } else {
                i - 1
            }) as u16,
            b: (if i + 1 < path.len() {
                i + 1
            } else {
                path.len() - 1
            }) as u16,
            w,
        },
        plot: Some(id),
        hard_alt: Some(alt),
    }
}

/// The positions at which a road lays a tile: the empty ones that it covers.
pub open spec fn road_ground(tiles: TileGrid, path: Seq<Vec2>, w: u16) -> Set<(int, int)> {
    Set::new(
        |p: (int, int)|
            tiles.at(p.0, p.1).spec_is_empty() && first_cover(path, w, p.0, p.1) < path.len(),
    )
}

/// Whether `after` is `before` with a road laid over every empty tile that it covers. Where
/// several nodes cover a tile, the first counts.
pub open spec fn is_road_laid(
    before: TileGrid,
    after: TileGrid,
    path: Seq<Vec2>,
    w: u16,
    id: Id,
    alts: Seq<i32>,
) -> bool {
    &&& forall|x: int, y: int| #[trigger]
        after.at(x, y) == {
            let i = first_cover(path, w, x, y);
            if before.at(x, y).spec_is_empty() && i < path.len() && on_grid(x, y) {
                road_tile(path, w, i, id, alts[cell_number(path, w, i, x, y)])
            } else {
                before.at(x, y)
            }
        }
    &&& is_hull(after.bounds, before.bounds, road_ground(before, path, w))
}

/// Whether all tiles that a road covers have representable positions.
pub open spec fn road_fits(path: Seq<Vec2>, w: u16) -> bool {
    forall|i: int|
        0 <= i < path.len() ==> (#[trigger] path[i]).offset_fits(-road_reach(w), -road_reach(w))
            && path[i].offset_fits(road_reach(w), road_reach(w))
}

pub(crate) proof fn lemma_first_cover_range(path: Seq<Vec2>, w: u16, x: int, y: int)
    ensures
        0 <= first_cover(path, w, x, y) <= path.len(),
        first_cover(path, w, x, y) < path.len() ==> covers(
            path[first_cover(path, w, x, y)],
            w,
            x,
            y,
        ),
    decreases path.len(),
{
    if path.len() > 0 {
        lemma_first_cover_range(path.drop_last(), w, x, y);
    }
}

/// The first node that covers a tile is the least of all nodes that cover it.
pub proof fn lemma_first_cover_is_least(path: Seq<Vec2>, w: u16, x: int, y: int, i: int)
    requires
        0 <= i < path.len(),
        covers(path[i], w, x, y),
    ensures
        first_cover(path, w, x, y) <= i,
        covers(path[first_cover(path, w, x, y)], w, x, y),
    decreases path.len(),
{
    lemma_first_cover_range(path, w, x, y);
    if i < path.len() - 1 {
        lemma_first_cover_is_least(path.drop_last(), w, x, y, i);
    }
}

proof fn lemma_hull_grows(hull: Aabr, start: Aabr, points: Set<(int, int)>, p: Vec2, grown: Aabr)
    requires
        is_hull(hull, start, points),
        is_bounds_with(
            hull,
            grown,
            p.x as int,
            p.y as int,
            p.x as int,
            p.y as int,
        ),
    ensures
        is_hull(grown, start, points.insert((p.x as int, p.y as int))),
{
    let more = points.insert((p.x as int, p.y as int));
    assert(more.contains((p.x as int, p.y as int)));
    assert(forall|q: (int, int)| #[trigger] points.contains(q) ==> more.contains(q));
    assert forall|q: (int, int)| #[trigger] more.contains(q) implies grown.encloses(q.0, q.1) by {
        if q != (p.x as int, p.y as int) {
            assert(points.contains(q));
        }
    }
}

/// The node for which the tile at `(x, y)` has been laid once all nodes before `i` are done, and
/// of the tiles around `i` those before row `dy`, and before column `dx` in row `dy`; `-1` if it
/// has not been laid.
spec fn laid_for(path: Seq<Vec2>, w: u16, i: int, dy: int, dx: int, x: int, y: int) -> int {
    let f = first_cover(path.take(i), w, x, y);
    if f < i {
        f
    } else if i < path.len() && covers(path[i], w, x, y) && (y - path[i].y < dy || (y - path[i].y
        == dy && x - path[i].x < dx)) {
        i
    } else {
        -1
    }
}

spec fn laid_set(
    tiles: TileGrid,
    path: Seq<Vec2>,
    w: u16,
    i: int,
    dy: int,
    dx: int,
) -> Set<(int, int)> {
    Set::new(
        |p: (int, int)|
            tiles.at(p.0, p.1).spec_is_empty() && laid_for(path, w, i, dy, dx, p.0, p.1) >= 0,
    )
}

/// How far the laying of a road has come.
spec fn is_laid_up_to(
    before: TileGrid,
    now: TileGrid,
    path: Seq<Vec2>,
    w: u16,
    id: Id,
    alts: Seq<i32>,
    i: int,
    dy: int,
    dx: int,
) -> bool {
    &&& forall|x: int, y: int| #[trigger]
        now.at(x, y) == {
            let f = laid_for(path, w, i, dy, dx, x, y);
            if before.at(x, y).spec_is_empty() && f >= 0 && on_grid(x, y) {
                road_tile(path, w, f, id, alts[cell_number(path, w, f, x, y)])
            } else {
                before.at(x, y)
            }
        }
    &&& is_hull(now.bounds, before.bounds, laid_set(before, path, w, i, dy, dx))
}

/// Progress depends only on which tiles have been laid.
proof fn lemma_same_progress(
    before: TileGrid,
    now: TileGrid,
    path: Seq<Vec2>,
    w: u16,
    id: Id,
    alts: Seq<i32>,
    i: int,
    dy: int,
    dx: int,
    i2: int,
    dy2: int,
    dx2: int,
)
    requires
        is_laid_up_to(before, now, path, w, id, alts, i, dy, dx),
        forall|x: int, y: int|
            #![trigger laid_for(path, w, i2, dy2, dx2, x, y)]
            laid_for(path, w, i, dy, dx, x, y) == laid_for(path, w, i2, dy2, dx2, x, y),
    ensures
        is_laid_up_to(before, now, path, w, id, alts, i2, dy2, dx2),
{
    assert(laid_set(before, path, w, i, dy, dx) =~= laid_set(before, path, w, i2, dy2, dx2)) by {
        assert forall|p: (int, int)|
            laid_set(before, path, w, i, dy, dx).contains(p) == laid_set(
                before,
                path,
                w,
                i2,
                dy2,
                dx2,
            ).contains(p) by {
            assert(laid_for(path, w, i2, dy2, dx2, p.0, p.1) == laid_for(
                path,
                w,
                i,
                dy,
                dx,
                p.0,
                p.1,
            ));
        }
    }
    assert forall|x: int, y: int| #[trigger]
        now.at(x, y) == {
            let f = laid_for(path, w, i2, dy2, dx2, x, y);
            if before.at(x, y).spec_is_empty() && f >= 0 && on_grid(x, y) {
                road_tile(path, w, f, id, alts[cell_number(path, w, f, x, y)])
            } else {
                before.at(x, y)
            }
        } by {
        assert(laid_for(path, w, i2, dy2, dx2, x, y) == laid_for(path, w, i, dy, dx, x, y));
    }
}

proof fn lemma_cell_bound(len: int, n: int, i: int, dy: int, dx: int)
    requires
        0 <= i < len,
        0 <= dy < n,
        0 <= dx < n,
    ensures
        0 <= (i * n + dy) * n + dx < len * (n * n),
{
    assert((i * n + dy) * n + dx < len * (n * n) && 0 <= (i * n + dy) * n + dx)
        by (nonlinear_arith)
        requires
            0 <= i < len,
            0 <= dy < n,
            0 <= dx < n,
    {
        assert(i * n + dy <= (len - 1) * n + (n - 1));
        assert(i * n >= 0);
        assert((i * n + dy) * n <= (len * n - 1) * n);
        assert(len * n * n == len * (n * n));
    }
}

proof fn lemma_low_bits(v: usize)
    ensures
        (v as u16) <= v,
{
    assert((v as u16) <= v) by (bit_vector);
}

/// Taking one more tile of a row changes nothing but that tile.
proof fn lemma_laid_for_step(
    path: Seq<Vec2>,
    w: u16,
    i: int,
    dy: int,
    dx: int,
    x: int,
    y: int,
)
    requires
        0 <= i < path.len(),
        -road_reach(w) <= dy < road_reach(w),
        -road_reach(w) <= dx < road_reach(w),
    ensures
        !(x == path[i].x + dx && y == path[i].y + dy) ==> laid_for(path, w, i, dy, dx + 1, x, y)
            == laid_for(path, w, i, dy, dx, x, y),
        x == path[i].x + dx && y == path[i].y + dy ==> {
            let f = laid_for(path, w, i, dy, dx, x, y);
            laid_for(path, w, i, dy, dx + 1, x, y) == if f >= 0 {
                f
            } else {
                i
            }
        },
        laid_for(path, w, i, dy, dx, x, y) <= i,
{
    lemma_first_cover_range(path.take(i), w, x, y);
}

proof fn lemma_row_done(path: Seq<Vec2>, w: u16, i: int, dy: int, x: int, y: int)
    requires
        0 <= i < path.len(),
    ensures
        laid_for(path, w, i, dy, road_reach(w), x, y) == laid_for(
            path,
            w,
            i,
            dy + 1,
            -road_reach(w),
            x,
            y,
        ),
{
}

proof fn lemma_node_done(path: Seq<Vec2>, w: u16, i: int, x: int, y: int)
    requires
        0 <= i < path.len(),
    ensures
        laid_for(path, w, i, road_reach(w), -road_reach(w), x, y) == laid_for(
            path,
            w,
            i + 1,
            -road_reach(w),
            -road_reach(w),
            x,
            y,
        ),
{
    lemma_first_cover_range(path.take(i), w, x, y);
    assert(path.take(i + 1).drop_last() =~= path.take(i));
}

/// Lays a road over the empty tiles that it covers.
fn lay_road(tiles: &mut TileGrid, path: &Vec<Vec2>, w: u16, id: Id, alts: &Vec<i32>)
    requires
        road_fits(path@, w),
        alts@.len() == path@.len() * cells_per_node(w),
    ensures
        is_road_laid(*old(tiles), *final(tiles), path@, w, id, alts@),
{
    let ghost before = *tiles;
    let reach: i32 = (w / 2) as i32;
    let ghost n = 2 * road_reach(w);
    let ghost low: int = -road_reach(w);
    let total: usize = alts.len();
    let mut k: usize = 0;
    let mut i: usize = 0;
    proof {
        assert(path@.take(0) =~= Seq::<Vec2>::empty());
        assert(laid_set(before, path@, w, 0, low, low) =~= Set::<
            (int, int),
        >::empty()) by {
        }
        assert(0 * n * n == 0) by (nonlinear_arith);
    }
    while i < path.len()
        invariant
            reach == road_reach(w),
            low == -road_reach(w),
            n == 2 * road_reach(w),
            road_fits(path@, w),
            total == alts@.len(),
            alts@.len() == path@.len() * cells_per_node(w),
            i <= path@.len(),
            k == i * n * n,
            is_laid_up_to(
                before,
                *tiles,
                path@,
                w,
                id,
                alts@,
                i as int,
                low,
                low,
            ),
        decreases path@.len() - i,
    {
        let node = path[i];
        let mut dy: i32 = -reach;
        assert((i * n + (dy + reach)) * n == i * n * n) by (nonlinear_arith)
            requires
                dy + reach == 0,
        ;
        while dy < reach
            invariant
                reach == road_reach(w),
            low == -road_reach(w),
                n == 2 * road_reach(w),
                road_fits(path@, w),
                total == alts@.len(),
                alts@.len() == path@.len() * cells_per_node(w),
                i < path@.len(),
                node == path@[i as int],
                -reach <= dy <= reach,
                k == (i * n + (dy + reach)) * n,
                is_laid_up_to(
                    before,
                    *tiles,
                    path@,
                    w,
                    id,
                    alts@,
                    i as int,
                    dy as int,
                    low,
                ),
            decreases reach - dy,
        {
            let mut dx: i32 = -reach;
            while dx < reach
                invariant
                    reach == road_reach(w),
            low == -road_reach(w),
                    n == 2 * road_reach(w),
                    road_fits(path@, w),
                    total == alts@.len(),
                    alts@.len() == path@.len() * cells_per_node(w),
                    i < path@.len(),
                    node == path@[i as int],
                    -reach <= dy < reach,
                    -reach <= dx <= reach,
                    k == (i * n + (dy + reach)) * n + (dx + reach),
                    is_laid_up_to(
                        before,
                        *tiles,
                        path@,
                        w,
                        id,
                        alts@,
                        i as int,
                        dy as int,
                        dx as int,
                    ),
                decreases reach - dx,
            {
                proof {
                    lemma_cell_bound(path@.len() as int, n, i as int, dy + reach, dx + reach);
                    assert(k < total);
                    assert(path@[i as int].offset_fits(-road_reach(w), -road_reach(w)));
                    assert forall|x: int, y: int|
                        #![trigger laid_for(path@, w, i as int, dy as int, dx + 1, x, y)]
                        {
                            let f = laid_for(path@, w, i as int, dy as int, dx as int, x, y);
                            let g = laid_for(path@, w, i as int, dy as int, dx + 1, x, y);
                            if x == node.x + dx && y == node.y + dy {
                                g == if f >= 0 {
                                    f
                                } else {
                                    i as int
                                }
                            } else {
                                g == f
                            }
                        } by {
                        lemma_laid_for_step(path@, w, i as int, dy as int, dx as int, x, y);
                    }
                }
                let p = node.offset(dx, dy);
                let ghost prior = *tiles;
                let ghost set = laid_set(before, path@, w, i as int, dy as int, dx as int);
                let ghost next_set = laid_set(before, path@, w, i as int, dy as int, dx + 1);
                let ghost here = (p.x as int, p.y as int);
                if tiles.get(p).is_empty() {
                    let a: u16 = if i == 0 {
                        0
                    } else {
                        #[verifier::truncate]
                        ((i - 1) as u16)
                    };
                    let b: u16 = if i < path.len() - 1 {
                        #[verifier::truncate]
                        ((i + 1) as u16)
                    } else {
                        #[verifier::truncate]
                        ((path.len() - 1) as u16)
                    };
                    tiles.set(
                        p,
                        Tile {
                            kind: TileKind::Road { a, b, w },
                            plot: Some(id),
                            hard_alt: Some(alts[k]),
                        },
                    );
                    proof {
                        lemma_hull_grows(
                            prior.bounds,
                            before.bounds,
                            set,
                            p,
                            tiles.bounds,
                        );
                        assert(next_set =~= set.insert(here)) by {
                            assert forall|q: (int, int)|
                                next_set.contains(q) == set.insert(here).contains(q) by {
                                lemma_laid_for_step(path@, w, i as int, dy as int, dx as int, q.0, q.1);
                            }
                        }
                    }
                } else {
                    assert(next_set =~= set) by {
                        assert forall|q: (int, int)| next_set.contains(q) == set.contains(q) by {
                            lemma_laid_for_step(path@, w, i as int, dy as int, dx as int, q.0, q.1);
                        }
                    }
                }
                assert(is_laid_up_to(
                    before,
                    *tiles,
                    path@,
                    w,
                    id,
                    alts@,
                    i as int,
                    dy as int,
                    dx + 1,
                ));
                k = k + 1;
                dx = dx + 1;
            }
            proof {
                assert forall|x: int, y: int|
                    #![trigger laid_for(path@, w, i as int, dy + 1, low, x, y)]
                    laid_for(path@, w, i as int, dy as int, reach as int, x, y) == laid_for(
                        path@,
                        w,
                        i as int,
                        dy + 1,
                        low,
                        x,
                        y,
                    ) by {
                    lemma_row_done(path@, w, i as int, dy as int, x, y);
                }
                lemma_same_progress(
                    before,
                    *tiles,
                    path@,
                    w,
                    id,
                    alts@,
                    i as int,
                    dy as int,
                    reach as int,
                    i as int,
                    dy + 1,
                    low,
                );
                assert((i * n + (dy + reach)) * n + n == (i * n + (dy + 1 + reach)) * n)
                    by (nonlinear_arith);
            }
            dy = dy + 1;
        }
        proof {
            assert forall|x: int, y: int|
                #![trigger laid_for(path@, w, i + 1, low, low, x, y)]
                laid_for(path@, w, i as int, reach as int, low, x, y) == laid_for(
                    path@,
                    w,
                    i + 1,
                    low,
                    low,
                    x,
                    y,
                ) by {
                lemma_node_done(path@, w, i as int, x, y);
            }
            lemma_same_progress(
                before,
                *tiles,
                path@,
                w,
                id,
                alts@,
                i as int,
                reach as int,
                low,
                i + 1,
                low,
                low,
            );
            assert((i * n + n) * n == (i + 1) * n * n) by (nonlinear_arith);
        }
        i = i + 1;
    }
    proof {
        assert(path@.take(i as int) =~= path@);
        assert(laid_set(before, path@, w, i as int, low, low) =~= road_ground(
            before,
            path@,
            w,
        )) by {
            assert forall|p: (int, int)|
                laid_set(before, path@, w, i as int, low, low).contains(p)
                    == road_ground(before, path@, w).contains(p) by {
                lemma_first_cover_range(path@, w, p.0, p.1);
            }
        }
        assert forall|x: int, y: int| #[trigger]
            tiles.at(x, y) == {
                let f = first_cover(path@, w, x, y);
                if before.at(x, y).spec_is_empty() && f < path@.len() && on_grid(x, y) {
                    road_tile(path@, w, f, id, alts@[cell_number(path@, w, f, x, y)])
                } else {
                    before.at(x, y)
                }
            } by {
            lemma_first_cover_range(path@, w, x, y);
        }
    }
}

proof fn lemma_road_tile_ok(path: Seq<Vec2>, w: u16, i: int, id: Id, alt: i32, plots: Seq<Plot>)
    requires
        0 <= i < path.len(),
        path.len() <= usize::MAX,
        id.idx < plots.len(),
        plots[id.idx as int].kind matches PlotKind::Road(nodes) ==> nodes@ == path,
    ensures
        tile_ok(plots, road_tile(path, w, i, id, alt)),
{
    let a: int = if i == 0 {
        0
    } else {
        i - 1
    };
    let b: int = if i + 1 < path.len() {
        i + 1
    } else {
        path.len() - 1
    };
    lemma_low_bits(a as usize);
    lemma_low_bits(b as usize);
}

/// The tiles around the nodes of a path that a road of width `w` covers, node by node and row by
/// row.
pub fn road_cells(path: &Vec<Vec2>, w: u16) -> (r: Vec<Vec2>)
    requires
        road_fits(path@, w),
        path@.len() * cells_per_node(w) <= usize::MAX,
    ensures
        r@.len() == path@.len() * cells_per_node(w),
        forall|i: int, x: int, y: int|
            #![trigger cell_number(path@, w, i, x, y)]
            0 <= i < path@.len() && covers(path@[i], w, x, y) ==> {
                &&& 0 <= cell_number(path@, w, i, x, y) < r@.len()
                &&& r@[cell_number(path@, w, i, x, y)].x == x
                &&& r@[cell_number(path@, w, i, x, y)].y == y
            },
{
    let mut cells: Vec<Vec2> = Vec::new();
    let reach: i32 = (w / 2) as i32;
    let ghost n = 2 * road_reach(w);
    let mut i: usize = 0;
    assert(0 * n * n == 0) by (nonlinear_arith);
    while i < path.len()
        invariant
            reach == road_reach(w),
            n == 2 * road_reach(w),
            road_fits(path@, w),
            i <= path@.len(),
            cells@.len() == i * n * n,
            forall|j: int, x: int, y: int|
                #![trigger cell_number(path@, w, j, x, y)]
                0 <= j < i && covers(path@[j], w, x, y) ==> {
                    &&& 0 <= cell_number(path@, w, j, x, y) < cells@.len()
                    &&& cells@[cell_number(path@, w, j, x, y)].x == x
                    &&& cells@[cell_number(path@, w, j, x, y)].y == y
                },
        decreases path@.len() - i,
    {
        let node = path[i];
        let ghost done = cells@;
        let mut dy: i32 = -reach;
        assert((i * n + (dy + reach)) * n == i * n * n) by (nonlinear_arith)
            requires
                dy + reach == 0,
        ;
        while dy < reach
            invariant
                reach == road_reach(w),
                n == 2 * road_reach(w),
                road_fits(path@, w),
                i < path@.len(),
                node == path@[i as int],
                -reach <= dy <= reach,
                done.len() == i * n * n,
                done.len() <= cells@.len(),
                cells@.take(done.len() as int) == done,
                cells@.len() == (i * n + (dy + reach)) * n,
                forall|x: int, y: int|
                    #![trigger cell_number(path@, w, i as int, x, y)]
                    covers(node, w, x, y) && y - node.y < dy ==> {
                        &&& 0 <= cell_number(path@, w, i as int, x, y) < cells@.len()
                        &&& cells@[cell_number(path@, w, i as int, x, y)].x == x
                        &&& cells@[cell_number(path@, w, i as int, x, y)].y == y
                    },
            decreases reach - dy,
        {
            let mut dx: i32 = -reach;
            while dx < reach
                invariant
                    reach == road_reach(w),
                    n == 2 * road_reach(w),
                    road_fits(path@, w),
                    i < path@.len(),
                    node == path@[i as int],
                    -reach <= dy < reach,
                    -reach <= dx <= reach,
                    done.len() <= cells@.len(),
                    cells@.take(done.len() as int) == done,
                    cells@.len() == (i * n + (dy + reach)) * n + (dx + reach),
                    forall|x: int, y: int|
                        #![trigger cell_number(path@, w, i as int, x, y)]
                        covers(node, w, x, y) && (y - node.y < dy || (y - node.y == dy && x - node.x
                            < dx)) ==> {
                            &&& 0 <= cell_number(path@, w, i as int, x, y) < cells@.len()
                            &&& cells@[cell_number(path@, w, i as int, x, y)].x == x
                            &&& cells@[cell_number(path@, w, i as int, x, y)].y == y
                        },
                decreases reach - dx,
            {
                assert(path@[i as int].offset_fits(-road_reach(w), -road_reach(w)));
                let ghost prior = cells@;
                cells.push(node.offset(dx, dy));
                proof {
                    assert(cells@.take(done.len() as int) =~= prior.take(done.len() as int));
                    lemma_cell_bound(i + 1, n, i as int, dy + reach, dx + reach);
                    assert(cell_number(path@, w, i as int, node.x + dx, node.y + dy)
                        == prior.len());
                }
                dx = dx + 1;
            }
            assert((i * n + (dy + reach)) * n + n == (i * n + (dy + 1 + reach)) * n)
                by (nonlinear_arith);
            dy = dy + 1;
        }
        proof {
            assert((i * n + n) * n == (i + 1) * n * n) by (nonlinear_arith);
            assert forall|j: int, x: int, y: int|
                #![trigger cell_number(path@, w, j, x, y)]
                0 <= j < i + 1 && covers(path@[j], w, x, y) implies {
                &&& 0 <= cell_number(path@, w, j, x, y) < cells@.len()
                &&& cells@[cell_number(path@, w, j, x, y)].x == x
                &&& cells@[cell_number(path@, w, j, x, y)].y == y
            } by {
                if j < i {
                    let k = cell_number(path@, w, j, x, y);
                    assert(done[k] == cells@.take(done.len() as int)[k]);
                }
            }
        }
        i = i + 1;
    }
    proof {
        assert(path@.len() * n * n == path@.len() * (n * n)) by (nonlinear_arith);
    }
    cells
}

impl Site {
    /// Adds the road that was found from `a`, if any, and lays it over the empty tiles that it
    /// covers. `alts` gives the altitude of each tile around the path, in the order of
    /// [`road_cells`].
    pub fn create_road(
        &mut self,
        rng: &mut SiteRng,
        a: Vec2,
        path: Option<Vec<Vec2>>,
        w: u16,
        alts: &Vec<i32>,
    ) -> (r: Option<Id>)
        requires
            path matches Some(nodes) ==> road_fits(nodes@, w) && alts@.len() == nodes@.len()
                * cells_per_node(w),
        ensures
            r is Some <==> path is Some,
            path is None ==> *final(self) == *old(self) && *final(rng) == *old(rng),
            path matches Some(nodes) ==> {
                &&& is_road_added(
                    *old(self),
                    *final(self),
                    r->0,
                    a,
                    nodes@,
                    w,
                    alts@,
                    old(rng).word(),
                )
                &&& *final(rng) == old(rng).skip(1)
            },
            old(self).wf() ==> final(self).wf(),
    {
        match path {
            None => None,
            Some(nodes) => {
                let mut tiles: Vec<Vec2> = Vec::new();
                let mut i: usize = 0;
                while i < nodes.len()
                    invariant
                        i <= nodes@.len(),
                        tiles@ == nodes@.take(i as int),
                    decreases nodes@.len() - i,
                {
                    tiles.push(nodes[i]);
                    assert(nodes@.take(i + 1) =~= nodes@.take(i as int).push(nodes@[i as int]));
                    i = i + 1;
                }
                assert(nodes@.take(i as int) =~= nodes@);
                let seed = rng.next_u32();
                let id = Id { idx: self.plots.len() };
                lay_road(&mut self.tiles, &nodes, w, id, alts);
                self.plots.push(
                    Plot { kind: PlotKind::Road(nodes), root_tile: a, tiles, seed },
                );
                self.roads.push(id);
                proof {
                    assert(self.plots@.take(old(self).plots@.len() as int) =~= old(self).plots@);
                    if old(self).wf() {
                        lemma_road_keeps_wf(*old(self), *self, id, nodes@, w, alts@);
                    }
                }
                Some(id)
            },
        }
    }
}

/// Whether `after` is `before` with a road, numbered `id`, along a path.
pub open spec fn is_road_added(
    before: Site,
    after: Site,
    id: Id,
    a: Vec2,
    path: Seq<Vec2>,
    w: u16,
    alts: Seq<i32>,
    seed: u32,
) -> bool {
    &&& after.has_new_plot(before, id)
    &&& after.plazas == before.plazas
    &&& after.roads@ == before.roads@.push(id)
    &&& after.plot_of(id).kind matches PlotKind::Road(nodes) && nodes@ == path
    &&& after.plot_of(id).root_tile == a
    &&& after.plot_of(id).tiles@ == path
    &&& after.plot_of(id).seed == seed
    &&& is_road_laid(before.tiles, after.tiles, path, w, id, alts)
}

proof fn lemma_road_keeps_wf(
    before: Site,
    after: Site,
    id: Id,
    path: Seq<Vec2>,
    w: u16,
    alts: Seq<i32>,
)
    requires
        before.wf(),
        path.len() <= usize::MAX,
        after.has_new_plot(before, id),
        after.plazas == before.plazas,
        after.roads@ == before.roads@.push(id),
        after.plot_of(id).kind matches PlotKind::Road(nodes) && nodes@ == path,
        is_road_laid(before.tiles, after.tiles, path, w, id, alts),
    ensures
        after.wf(),
{
    assert forall|i: int| 0 <= i < before.plots@.len() implies after.plots@[i]
        == #[trigger] before.plots@[i] by {
        assert(after.plots@.take(before.plots@.len() as int)[i] == before.plots@[i]);
    }
    assert forall|i: int| 0 <= i < after.roads@.len() implies (#[trigger] after.roads@[i]).idx
        < after.plots@.len() && after.plots@[after.roads@[i].idx as int].kind is Road by {
        if i < before.roads@.len() {
            assert(after.roads@[i] == before.roads@[i]);
        }
    }
    assert forall|x: int, y: int|
        tile_ok(after.plots@, #[trigger] after.tiles.at(x, y)) && (after.tiles.at(x, y).plot is Some
            ==> after.tiles.bounds.encloses(x, y)) by {
        let i = first_cover(path, w, x, y);
        assert(tile_ok(before.plots@, before.tiles.at(x, y)));
        lemma_first_cover_range(path, w, x, y);
        if before.tiles.at(x, y).spec_is_empty() && i < path.len() && on_grid(x, y) {
            lemma_road_tile_ok(
                path,
                w,
                i,
                id,
                alts[cell_number(path, w, i, x, y)],
                after.plots@,
            );
            assert(road_ground(before.tiles, path, w).contains((x, y)));
        }
    }
}

} // verus!
