//! Buildings that keep out of each other's way.

use crate::geom::{Aabr, Vec2};
use crate::laws::law_area_is_listed_once;
use crate::plot::{Id, Plot};
use crate::site::{area_tiles, lemma_other_plots_stay, Site};
use crate::tile::on_grid;
use vstd::prelude::*;

verus! {

/// Whether no plot is more than a plaza or a road.
pub open spec fn is_bare(plots: Seq<Plot>) -> bool {
    forall|i: int| 0 <= i < plots.len() ==> !(#[trigger] plots[i]).kind.spec_has_structure()
}

impl Site {
    /// Whether no tile of an area belongs to a plot.
    pub open spec fn is_clear(self, aabr: Aabr) -> bool {
        forall|x: int, y: int|
            aabr.holds(x, y) ==> on_grid(x, y) && (#[trigger] self.tiles.at(x, y)).plot is None
    }

    /// Whether the tile `p` is one that the plot numbered `i` was built on.
    pub open spec fn is_built_on(self, i: int, p: Vec2) -> bool {
        &&& 0 <= i < self.plots@.len()
        &&& self.plots@[i].kind.spec_has_structure()
        &&& self.plots@[i].tiles@.contains(p)
    }

    /// Whether no two buildings were built on the same tile, and all tiles that were built on
    /// belong to a plot.
    pub open spec fn buildings_apart(self) -> bool {
        &&& forall|i: int, j: int, p: Vec2|
            #![trigger self.is_built_on(i, p), self.is_built_on(j, p)]
            self.is_built_on(i, p) && self.is_built_on(j, p) ==> i == j
        &&& forall|i: int, p: Vec2| #[trigger]
            self.is_built_on(i, p) && on_grid(p.x as int, p.y as int) ==> self.tiles.at_pos(
                p,
            ).plot is Some
    }
}

/// Whether every tile of `before` that belongs to a plot does so in `after`.
pub open spec fn keeps_owned(before: Site, after: Site) -> bool {
    forall|x: int, y: int|
        before.tiles.at(x, y).plot is Some ==> (#[trigger] after.tiles.at(x, y)).plot is Some
}

/// Plazas and roads do not come between buildings.
pub proof fn lemma_open_ground_keeps_apart(before: Site, after: Site, id: Id)
    requires
        before.buildings_apart(),
        after.has_new_plot(before, id),
        !after.plot_of(id).kind.spec_has_structure(),
        keeps_owned(before, after),
    ensures
        after.buildings_apart(),
{
    lemma_other_plots_stay(before, after, id);
    assert forall|i: int, p: Vec2| #[trigger] after.is_built_on(i, p) implies before.is_built_on(
        i,
        p,
    ) by {
        if i < before.plots@.len() {
            assert(after.plots@[i] == before.plots@[i]);
        }
    }
    assert forall|i: int, p: Vec2| #[trigger]
        after.is_built_on(i, p) && on_grid(p.x as int, p.y as int) implies after.tiles.at_pos(
        p,
    ).plot is Some by {
        assert(before.is_built_on(i, p));
        assert(before.tiles.at_pos(p).plot is Some);
        assert(after.tiles.at(p.x as int, p.y as int).plot is Some);
    }
    assert forall|i: int, j: int, p: Vec2|
        #![trigger after.is_built_on(i, p), after.is_built_on(j, p)]
        after.is_built_on(i, p) && after.is_built_on(j, p) implies i == j by {
        assert(before.is_built_on(i, p) && before.is_built_on(j, p));
    }
}

/// A building on an area that is clear, or the first one, shares no tile with another.
pub proof fn lemma_clear_area_keeps_apart(before: Site, after: Site, id: Id, aabr: Aabr)
    requires
        before.buildings_apart(),
        after.has_new_plot(before, id),
        after.plot_of(id).tiles@ == area_tiles(aabr),
        keeps_owned(before, after),
        before.is_clear(aabr) || is_bare(before.plots@),
        forall|x: int, y: int|
            aabr.holds(x, y) && on_grid(x, y) ==> (#[trigger] after.tiles.at(x, y)).plot is Some,
    ensures
        after.buildings_apart(),
{
    let n = before.plots@.len() as int;
    lemma_other_plots_stay(before, after, id);
    law_area_is_listed_once(aabr);
    assert forall|i: int, p: Vec2| #[trigger] after.is_built_on(i, p) implies if i < n {
        before.is_built_on(i, p) && !is_bare(before.plots@)
    } else {
        i == n && aabr.holds(p.x as int, p.y as int)
    } by {
        if i < n {
            assert(after.plots@[i] == before.plots@[i]);
        } else {
            assert(area_tiles(aabr).contains(p));
        }
    }
    assert forall|i: int, p: Vec2| #[trigger]
        after.is_built_on(i, p) && on_grid(p.x as int, p.y as int) implies after.tiles.at_pos(
        p,
    ).plot is Some by {
        if i < n {
            assert(before.is_built_on(i, p));
            assert(before.tiles.at_pos(p).plot is Some);
        }
        assert(after.tiles.at(p.x as int, p.y as int).plot is Some);
    }
    assert forall|i: int, j: int, p: Vec2|
        #![trigger after.is_built_on(i, p), after.is_built_on(j, p)]
        after.is_built_on(i, p) && after.is_built_on(j, p) implies i == j by {
        if i < n && j < n {
            assert(before.is_built_on(i, p) && before.is_built_on(j, p));
        } else if i < n || j < n {
            let k = if i < n {
                i
            } else {
                j
            };
            assert(before.is_built_on(k, p));
            assert(before.tiles.at(p.x as int, p.y as int).plot is None);
            assert(before.tiles.at_pos(p).plot is Some);
        }
    }
}

} // verus!
