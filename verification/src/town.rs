//! Settlements that grow round by round: what is built next, where it may go, and when to stop.
//!
//! A [`Town`] is a settlement in the making. Its [`Phase`] says what is needed next: its name, a
//! survey of the land, a plaza, a lot, an area beside a road, or the altitude of a building whose
//! inside has been worked out. Each need has a method that takes the answer and moves on.

use crate::castle::{castle_fits, is_castle};
use crate::clear::{is_bare, lemma_clear_area_keeps_apart, lemma_open_ground_keeps_apart};
use crate::geom::{max_int, min_int, Aabr, Vec2};
use crate::names::NameStyle;
use crate::obstacles::{is_surveyed, survey_fits, TileSurvey};
use crate::plaza::{
    is_far_enough, is_plaza_laid, plaza_area, PlazaLinks, PlazaSearch, PLAZA_ROAD_WIDTH,
    ROADS_PER_PLAZA,
};
use crate::plot::{Id, Plot, PlotKind};
use crate::rng::SiteRng;
use crate::roads::{cells_per_node, is_road_added, road_fits};
use crate::search::AreaSearch;
use crate::site::{center_tile, is_placed, lemma_other_plots_stay, Site};
use crate::tile::TileKind;
use vstd::prelude::*;

verus! {

/// The side of an airship dock, which is not drawn.
pub const AIRSHIP_DOCK_SIZE: u32 = 3;

/// What kind of settlement a town becomes.
#[derive(Clone, Copy, PartialEq, Eq, Structural, Debug)]
pub enum TownKind {
    /// A city, with the number of workshops that it has room for, and whether it is large enough
    /// for taverns and an airship dock.
    City { max_workshops: i32, large: bool },
    CliffTown,
    SavannahPit,
    CoastalTown,
    DesertCity,
    Terracotta,
}

/// What can be built in one round.
#[derive(Clone, Copy, PartialEq, Eq, Structural, Debug)]
pub enum Build {
    Workshop,
    House,
    GuardTower,
    Castle,
    /// The clearing that there must be before an airship dock is considered.
    DockClearing,
    AirshipDock,
    Tavern,
    CliffTower,
    SavannahHut,
    SavannahWorkshop,
    CoastalHouse,
    CoastalWorkshop,
    DesertCityMultiPlot,
    DesertCityTemple,
    TerracottaHouse,
    TerracottaYard,
}

/// What a town needs next.
#[derive(Clone, Copy, PartialEq, Eq, Structural, Debug)]
pub enum Phase {
    /// Its name.
    Name,
    /// A survey of the land.
    Survey,
    /// The first plaza, if there is a place for one.
    Plaza,
    /// The altitude of the building in the middle.
    Centre,
    /// A lot that decides what is built.
    Lot,
    /// An area beside a road to build on.
    Search(Build),
    /// The altitude of a building, with the tile of its door, the step from there to the road, and
    /// the offset of a castle's gate.
    Raise { build: Build, aabr: Aabr, door: Vec2, dir: Vec2, offset: i32 },
    /// One more plaza, if there is a place for one.
    MorePlaza,
    /// Nothing.
    Done,
}

/// How to look for an area: how often, how large it may be, and how large it must be.
#[derive(Clone, Copy, PartialEq, Eq, Structural, Debug)]
pub struct SearchPlan {
    pub attempts: u32,
    pub min_area: u32,
    pub max_area: u32,
    pub min_width: u32,
    pub min_height: u32,
}

/// A settlement in the making.
#[derive(Debug)]
pub struct Town {
    pub site: Site,
    pub kind: TownKind,
    pub phase: Phase,
    /// The rounds in all, and those left, the present one among them.
    pub rounds: u32,
    pub left: u32,
    pub castles: u32,
    pub workshops: u32,
    pub airship_docks: u32,
    pub taverns: u32,
    pub temples: u32,
    pub campfires: u32,
    /// The building in the middle, once it is raised.
    pub centre: Option<Id>,
    /// The roads from the plaza that was made last, as long as it is being joined to others.
    pub links: Option<PlazaLinks>,
    /// The plaza that the next road starts from.
    pub due: Option<Id>,
}

/// How many of some plots are wanted ones.
pub open spec fn count_of(plots: Seq<Plot>, wanted: spec_fn(PlotKind) -> bool) -> nat
    decreases plots.len(),
{
    if plots.len() == 0 {
        0
    } else {
        count_of(plots.drop_last(), wanted) + if wanted(plots.last().kind) {
            1nat
        } else {
            0nat
        }
    }
}

/// One more plot counts if it is wanted.
pub proof fn lemma_count_grows(
    before: Seq<Plot>,
    after: Seq<Plot>,
    wanted: spec_fn(PlotKind) -> bool,
)
    requires
        after.len() == before.len() + 1,
        after.take(before.len() as int) == before,
    ensures
        count_of(after, wanted) == count_of(before, wanted) + if wanted(after.last().kind) {
            1nat
        } else {
            0nat
        },
{
    assert(after.drop_last() =~= after.take(before.len() as int));
}

/// Some plots are counted only if there are some.
pub proof fn lemma_counted_plots_exist(plots: Seq<Plot>, wanted: spec_fn(PlotKind) -> bool)
    requires
        count_of(plots, wanted) > 0,
    ensures
        exists|i: int| 0 <= i < plots.len() && wanted((#[trigger] plots[i]).kind),
    decreases plots.len(),
{
    let last = plots.len() - 1;
    if wanted(plots.last().kind) {
        assert(plots[last] == plots.last());
    } else {
        let rest = plots.drop_last();
        lemma_counted_plots_exist(rest, wanted);
        let i = choose|i: int| 0 <= i < rest.len() && wanted((#[trigger] rest[i]).kind);
        assert(plots[i] == rest[i]);
    }
}

/// Whether `ids` holds, in ascending order and once each, the numbers of all wanted plots.
pub open spec fn lists_all(
    ids: Seq<Id>,
    plots: Seq<Plot>,
    wanted: spec_fn(PlotKind) -> bool,
) -> bool {
    &&& forall|i: int, j: int| 0 <= i < j < ids.len() ==> (#[trigger] ids[i]).idx < (
    #[trigger] ids[j]).idx
    &&& forall|i: int|
        0 <= i < ids.len() ==> (#[trigger] ids[i]).idx < plots.len() && wanted(
            plots[ids[i].idx as int].kind,
        )
    &&& forall|k: int|
        0 <= k < plots.len() && wanted((#[trigger] plots[k]).kind) ==> ids.contains(
            Id { idx: k as usize },
        )
}

/// A list of plots grows by a new plot if that is wanted, and stays otherwise.
proof fn lemma_list_grows(
    ids: Seq<Id>,
    before: Site,
    after: Site,
    id: Id,
    wanted: spec_fn(PlotKind) -> bool,
)
    requires
        lists_all(ids, before.plots@, wanted),
        after.has_new_plot(before, id),
    ensures
        wanted(after.plot_of(id).kind) ==> lists_all(ids.push(id), after.plots@, wanted),
        !wanted(after.plot_of(id).kind) ==> lists_all(ids, after.plots@, wanted),
{
    let n = before.plots@.len() as int;
    lemma_other_plots_stay(before, after, id);
    assert forall|i: int| 0 <= i < ids.len() implies (#[trigger] ids[i]).idx < n && wanted(
        after.plots@[ids[i].idx as int].kind,
    ) by {
        assert(after.plots@[ids[i].idx as int] == before.plots@[ids[i].idx as int]);
    }
    assert forall|k: int| 0 <= k < n && wanted((#[trigger] after.plots@[k]).kind) implies {
        &&& ids.contains(Id { idx: k as usize })
        &&& ids.push(id).contains(Id { idx: k as usize })
    } by {
        assert(after.plots@[k] == before.plots@[k]);
        let i = choose|i: int| 0 <= i < ids.len() && ids[i] == Id { idx: k as usize };
        assert(ids.push(id)[i] == ids[i]);
    }
    assert(ids.push(id)[ids.len() as int] == id);
    assert(id == Id { idx: n as usize });
}

/// Whether a plot is the first that is more than a plaza or a road.
pub open spec fn is_first_building(plots: Seq<Plot>, i: int) -> bool {
    &&& 0 <= i < plots.len()
    &&& plots[i].kind.spec_has_structure()
    &&& forall|j: int| 0 <= j < i ==> !(#[trigger] plots[j]).kind.spec_has_structure()
}

/// Whether a plaza with the given root tile can reach `(x, y)`.
pub open spec fn can_reach(root: Vec2, x: int, y: int) -> bool {
    -3 <= x - root.x <= 3 && -3 <= y - root.y <= 3
}

/// Whether some plaza can reach `(x, y)`.
pub open spec fn is_near_plaza(site: Site, x: int, y: int) -> bool {
    exists|k: int|
        0 <= k < site.plazas@.len() && can_reach(
            site.plot_of(#[trigger] site.plazas@[k]).root_tile,
            x,
            y,
        )
}

impl TownKind {
    /// What kinds of plots there can be in the town.
    pub open spec fn may_hold(self, kind: PlotKind) -> bool {
        ||| kind is Plaza
        ||| kind is Road
        ||| match self {
            TownKind::City { large, .. } => {
                ||| kind is Workshop
                ||| kind is House
                ||| kind is Castle
                ||| large && (kind is AirshipDock || kind is Tavern)
            },
            TownKind::CliffTown => kind is CliffTower,
            TownKind::SavannahPit => {
                kind is SavannahPit || kind is SavannahHut || kind is SavannahWorkshop
            },
            TownKind::CoastalTown => kind is CoastalHouse || kind is CoastalWorkshop,
            TownKind::DesertCity => {
                kind is DesertCityArena || kind is DesertCityMultiPlot || kind is DesertCityTemple
            },
            TownKind::Terracotta => {
                kind is TerracottaPalace || kind is TerracottaHouse || kind is TerracottaYard
            },
        }
    }

    /// What can be built in the town, besides the building in the middle.
    pub open spec fn may_build(self, build: Build) -> bool {
        match self {
            TownKind::City { large, .. } => {
                ||| build is Workshop
                ||| build is House
                ||| build is GuardTower
                ||| build is Castle
                ||| large && (build is DockClearing || build is AirshipDock || build is Tavern)
            },
            TownKind::CliffTown => build is CliffTower,
            TownKind::SavannahPit => build is SavannahHut || build is SavannahWorkshop,
            TownKind::CoastalTown => build is CoastalHouse || build is CoastalWorkshop,
            TownKind::DesertCity => build is DesertCityMultiPlot || build is DesertCityTemple,
            TownKind::Terracotta => build is TerracottaHouse || build is TerracottaYard,
        }
    }

    /// How the name of the town is made up.
    pub open spec fn spec_name_style(self) -> NameStyle {
        match self {
            TownKind::City { .. } => NameStyle::Town,
            TownKind::CliffTown => NameStyle::Arabic,
            TownKind::SavannahPit => NameStyle::Savannah,
            TownKind::CoastalTown => NameStyle::Danari,
            TownKind::DesertCity => NameStyle::Arabic,
            TownKind::Terracotta => NameStyle::Terracotta,
        }
    }

    pub fn name_style(self) -> (r: NameStyle)
        ensures
            r == self.spec_name_style(),
    {
        match self {
            TownKind::City { .. } => NameStyle::Town,
            TownKind::CliffTown | TownKind::DesertCity => NameStyle::Arabic,
            TownKind::SavannahPit => NameStyle::Savannah,
            TownKind::CoastalTown => NameStyle::Danari,
            TownKind::Terracotta => NameStyle::Terracotta,
        }
    }

    /// One if the town has a building in the middle, else zero.
    pub open spec fn centre_count(self) -> int {
        if self.spec_centre() is Some {
            1
        } else {
            0
        }
    }

    /// The building in the middle, with half the side of its area, if the town has one.
    pub open spec fn spec_centre(self) -> Option<(PlotKind, int)> {
        match self {
            TownKind::SavannahPit => Some((PlotKind::SavannahPit, 11)),
            TownKind::DesertCity => Some((PlotKind::DesertCityArena, 17)),
            TownKind::Terracotta => Some((PlotKind::TerracottaPalace, 15)),
            _ => None,
        }
    }

    /// Half the side of the area in the middle that is kept for a building, if any.
    pub fn centre_size(self) -> (r: Option<i32>)
        ensures
            r is Some <==> self.spec_centre() is Some,
            r matches Some(size) ==> size == (self.spec_centre()->0).1,
    {
        match self {
            TownKind::SavannahPit => Some(11),
            TownKind::DesertCity => Some(17),
            TownKind::Terracotta => Some(15),
            _ => None,
        }
    }

    /// How likely each lot is: weights, each with its lot.
    pub open spec fn spec_lots(self) -> Seq<(u32, u32)> {
        match self {
            TownKind::City { .. } => seq![
                (64, 1),
                (5, 2),
                (8, 3),
                (5, 4),
                (5, 5),
                (15, 6),
                (15, 7),
            ],
            TownKind::CliffTown => Seq::empty(),
            TownKind::SavannahPit => seq![(38, 1), (7, 2)],
            TownKind::CoastalTown => seq![(38, 1), (7, 2)],
            TownKind::DesertCity => seq![(20, 1), (10, 2)],
            TownKind::Terracotta => seq![(12, 1), (4, 2)],
        }
    }

    pub fn lots(self) -> (r: Vec<(u32, u32)>)
        ensures
            r@ == self.spec_lots(),
    {
        let lots: Vec<(u32, u32)> = match self {
            TownKind::City { .. } => vec![
                (64, 1),
                (5, 2),
                (8, 3),
                (5, 4),
                (5, 5),
                (15, 6),
                (15, 7),
            ],
            TownKind::CliffTown => Vec::new(),
            TownKind::SavannahPit | TownKind::CoastalTown => vec![(38, 1), (7, 2)],
            TownKind::DesertCity => vec![(20, 1), (10, 2)],
            TownKind::Terracotta => vec![(12, 1), (4, 2)],
        };
        assert(lots@ =~= self.spec_lots());
        lots
    }

    /// Whether the land is surveyed before anything is built.
    pub open spec fn is_surveyed_first(self) -> bool {
        !(self is CliffTown || self is Terracotta)
    }

    /// What is needed at the start of a round.
    pub open spec fn round_start(self, left: u32) -> Phase {
        if left == 0 {
            Phase::Done
        } else if self is CliffTown {
            Phase::Search(Build::CliffTower)
        } else {
            Phase::Lot
        }
    }

    /// What is needed once the first plaza is made.
    pub open spec fn after_plaza(self, left: u32) -> Phase {
        if self.spec_centre() is Some {
            Phase::Centre
        } else {
            self.round_start(left)
        }
    }

    fn next_round(self, left: u32) -> (r: Phase)
        ensures
            r == self.round_start(left),
    {
        if left == 0 {
            Phase::Done
        } else {
            match self {
                TownKind::CliffTown => Phase::Search(Build::CliffTower),
                _ => Phase::Lot,
            }
        }
    }
}

/// The square area with the middle of the site as its middle.
pub open spec fn middle_area(size: int) -> Aabr {
    Aabr {
        min: Vec2 { x: (-size) as i32, y: (-size) as i32 },
        max: Vec2 { x: size as i32, y: size as i32 },
    }
}

impl Build {
    /// The least area that is looked for, where it depends on the building alone.
    pub open spec fn least_area(self) -> int {
        match self {
            Build::Tavern | Build::CoastalHouse | Build::CoastalWorkshop => 7,
            Build::CliffTower | Build::DesertCityMultiPlot | Build::DesertCityTemple => 8,
            Build::TerracottaHouse | Build::TerracottaYard => 9,
            _ => 4,
        }
    }

    /// Whether an area is looked for that does not depend on a size.
    pub open spec fn has_fixed_area(self) -> bool {
        self is GuardTower || self is DockClearing || self is Castle
    }

    /// How an area for the building is looked for, `size` being its side where that is drawn.
    pub open spec fn plan(self, size: u32) -> SearchPlan {
        match self {
            Build::GuardTower | Build::DockClearing => SearchPlan {
                attempts: 10,
                min_area: 4,
                max_area: 4,
                min_width: 2,
                min_height: 2,
            },
            Build::Castle => SearchPlan {
                attempts: 32,
                min_area: 256,
                max_area: 324,
                min_width: 16,
                min_height: 16,
            },
            _ => SearchPlan {
                attempts: 32,
                min_area: self.least_area() as u32,
                max_area: ((size + 1) * (size + 1)) as u32,
                min_width: size,
                min_height: size,
            },
        }
    }

    pub fn search_plan(self, size: u32) -> (r: SearchPlan)
        requires
            !self.has_fixed_area() ==> size < 0xffff,
        ensures
            r == self.plan(size),
    {
        match self {
            Build::GuardTower | Build::DockClearing => SearchPlan {
                attempts: 10,
                min_area: 4,
                max_area: 4,
                min_width: 2,
                min_height: 2,
            },
            Build::Castle => SearchPlan {
                attempts: 32,
                min_area: 256,
                max_area: 324,
                min_width: 16,
                min_height: 16,
            },
            _ => {
                let min_area: u32 = match self {
                    Build::Tavern | Build::CoastalHouse | Build::CoastalWorkshop => 7,
                    Build::CliffTower | Build::DesertCityMultiPlot | Build::DesertCityTemple => 8,
                    Build::TerracottaHouse | Build::TerracottaYard => 9,
                    _ => 4,
                };
                let side: u32 = size + 1;
                assert(side * side <= 0xffff_ffff) by (nonlinear_arith)
                    requires
                        side <= 0xffff,
                ;
                SearchPlan {
                    attempts: 32,
                    min_area,
                    max_area: side * side,
                    min_width: size,
                    min_height: size,
                }
            },
        }
    }

    /// The least side of the building and by how much it can be more, both in halves of a tile;
    /// nothing if the side is not drawn.
    pub open spec fn spec_size_halves(self) -> Option<(u32, u32)> {
        match self {
            Build::Workshop => Some((6, 3)),
            Build::House => Some((3, 2)),
            Build::Tavern => Some((7, 4)),
            Build::CliffTower => Some((18, 2)),
            Build::SavannahHut | Build::SavannahWorkshop => Some((8, 3)),
            Build::CoastalHouse | Build::CoastalWorkshop => Some((14, 3)),
            Build::DesertCityMultiPlot | Build::DesertCityTemple => Some((18, 3)),
            Build::TerracottaHouse | Build::TerracottaYard => Some((18, 3)),
            Build::GuardTower | Build::DockClearing | Build::Castle | Build::AirshipDock => None,
        }
    }

    pub fn size_halves(self) -> (r: Option<(u32, u32)>)
        ensures
            r == self.spec_size_halves(),
    {
        match self {
            Build::Workshop => Some((6, 3)),
            Build::House => Some((3, 2)),
            Build::Tavern => Some((7, 4)),
            Build::CliffTower => Some((18, 2)),
            Build::SavannahHut | Build::SavannahWorkshop => Some((8, 3)),
            Build::CoastalHouse | Build::CoastalWorkshop => Some((14, 3)),
            Build::DesertCityMultiPlot | Build::DesertCityTemple => Some((18, 3)),
            Build::TerracottaHouse | Build::TerracottaYard => Some((18, 3)),
            Build::GuardTower | Build::DockClearing | Build::Castle | Build::AirshipDock => None,
        }
    }

    /// The kind of plot that is made; nothing for what only looks for room.
    pub open spec fn spec_plot_kind(self) -> Option<PlotKind> {
        match self {
            Build::Workshop => Some(PlotKind::Workshop),
            Build::House => Some(PlotKind::House),
            Build::GuardTower => None,
            Build::Castle => Some(PlotKind::Castle),
            Build::DockClearing => None,
            Build::AirshipDock => Some(PlotKind::AirshipDock),
            Build::Tavern => Some(PlotKind::Tavern),
            Build::CliffTower => Some(PlotKind::CliffTower),
            Build::SavannahHut => Some(PlotKind::SavannahHut),
            Build::SavannahWorkshop => Some(PlotKind::SavannahWorkshop),
            Build::CoastalHouse => Some(PlotKind::CoastalHouse),
            Build::CoastalWorkshop => Some(PlotKind::CoastalWorkshop),
            Build::DesertCityMultiPlot => Some(PlotKind::DesertCityMultiPlot),
            Build::DesertCityTemple => Some(PlotKind::DesertCityTemple),
            Build::TerracottaHouse => Some(PlotKind::TerracottaHouse),
            Build::TerracottaYard => Some(PlotKind::TerracottaYard),
        }
    }

    fn plot_kind(self) -> (r: Option<PlotKind>)
        ensures
            r == self.spec_plot_kind(),
    {
        match self {
            Build::Workshop => Some(PlotKind::Workshop),
            Build::House => Some(PlotKind::House),
            Build::GuardTower => None,
            Build::Castle => Some(PlotKind::Castle),
            Build::DockClearing => None,
            Build::AirshipDock => Some(PlotKind::AirshipDock),
            Build::Tavern => Some(PlotKind::Tavern),
            Build::CliffTower => Some(PlotKind::CliffTower),
            Build::SavannahHut => Some(PlotKind::SavannahHut),
            Build::SavannahWorkshop => Some(PlotKind::SavannahWorkshop),
            Build::CoastalHouse => Some(PlotKind::CoastalHouse),
            Build::CoastalWorkshop => Some(PlotKind::CoastalWorkshop),
            Build::DesertCityMultiPlot => Some(PlotKind::DesertCityMultiPlot),
            Build::DesertCityTemple => Some(PlotKind::DesertCityTemple),
            Build::TerracottaHouse => Some(PlotKind::TerracottaHouse),
            Build::TerracottaYard => Some(PlotKind::TerracottaYard),
        }
    }

    /// Whether a plaza is made instead if there is no room.
    pub open spec fn wants_plaza(self) -> bool {
        !(self is GuardTower || self is Castle || self is DockClearing || self is DesertCityTemple)
    }
}

impl Phase {
    /// The building that is looked for or about to be raised.
    pub open spec fn pending(self) -> Option<Build> {
        match self {
            Phase::Search(build) => Some(build),
            Phase::Raise { build, .. } => Some(build),
            _ => None,
        }
    }
}

impl Town {
    /// One if a building of that kind is pending, else zero.
    pub open spec fn pending_count(self, build: Build) -> int {
        if self.phase.pending() == Some(build) {
            1
        } else {
            0
        }
    }

    /// Whether the counters count the plots that they are about, and there are never more
    /// castles, airship docks, taverns, temples and workshops than the town has room for.
    pub open spec fn counts_ok(self) -> bool {
        let plots = self.site.plots@;
        &&& self.castles == count_of(plots, |k: PlotKind| k is Castle)
        &&& self.workshops == count_of(plots, |k: PlotKind| k is Workshop)
        &&& self.airship_docks == count_of(plots, |k: PlotKind| k is AirshipDock)
        &&& self.taverns == count_of(plots, |k: PlotKind| k is Tavern)
        &&& self.temples == count_of(plots, |k: PlotKind| k is DesertCityTemple)
        &&& self.campfires == count_of(
            plots,
            |k: PlotKind| k is CliffTower || k is DesertCityMultiPlot,
        )
        &&& self.castles + self.pending_count(Build::Castle) <= 1
        &&& self.airship_docks + self.pending_count(Build::AirshipDock) + self.pending_count(
            Build::DockClearing,
        ) <= 1
        &&& self.taverns + self.pending_count(Build::Tavern) <= 2
        &&& self.temples + self.pending_count(Build::DesertCityTemple) <= 1
        &&& self.workshops + self.pending_count(Build::Workshop) <= match self.kind {
            TownKind::City { max_workshops, .. } => max_int(1, max_workshops as int),
            _ => 0,
        }
        &&& self.campfires + self.left <= self.rounds
        &&& self.workshops + self.left <= self.rounds
    }

    /// Whether the plots are those of such a town: plazas are apart, all plazas and roads are
    /// listed, there are only the kinds of plots that the town can have, the first building of a
    /// city is a workshop, the building in the middle is the only one of its kind, and without a
    /// plaza there is nothing else.
    pub open spec fn plots_ok(self) -> bool {
        let plots = self.site.plots@;
        &&& self.site.plazas_apart()
        &&& lists_all(self.site.plazas@, plots, |k: PlotKind| k is Plaza)
        &&& lists_all(self.site.roads@, plots, |k: PlotKind| k is Road)
        &&& forall|i: int| 0 <= i < plots.len() ==> self.kind.may_hold((#[trigger] plots[i]).kind)
        &&& self.kind is City ==> forall|i: int| #[trigger]
            is_first_building(plots, i) ==> plots[i].kind is Workshop
        &&& self.centre matches Some(id) ==> {
            &&& id.idx < plots.len()
            &&& self.kind.spec_centre() is Some
            &&& plots[id.idx as int].kind == (self.kind.spec_centre()->0).0
        }
        &&& self.kind.spec_centre() matches Some(centre) ==> forall|i: int|
            0 <= i < plots.len() && (#[trigger] plots[i]).kind == centre.0 ==> self.centre is Some
                && (self.centre->0).idx == i
        &&& self.site.plazas@.len() == 0 ==> plots.len() == if self.centre is Some {
            1int
        } else {
            0int
        }
    }

    /// How many roads can still be made from the plaza that is being joined to others.
    pub open spec fn roads_open(self) -> int {
        match self.links {
            Some(links) => ROADS_PER_PLAZA - links.pathed@.len() + if self.due is Some {
                1int
            } else {
                0int
            },
            None => 0,
        }
    }

    /// How many plots that are no roads can still be made.
    pub open spec fn plots_open(self) -> int {
        let laid = if self.links is Some {
            1int
        } else {
            0int
        };
        match self.phase {
            Phase::Name | Phase::Survey | Phase::Plaza => self.left + 1 - laid
                + self.kind.centre_count(),
            Phase::Centre => self.left + 1,
            Phase::Lot | Phase::Search(_) | Phase::Raise { .. } => self.left as int,
            Phase::MorePlaza => self.left - laid,
            Phase::Done => 0,
        }
    }

    /// How many buildings can still be raised.
    pub open spec fn buildings_open(self) -> int {
        match self.phase {
            Phase::Name | Phase::Survey | Phase::Plaza => self.left + self.kind.centre_count(),
            Phase::Centre => self.left + 1,
            Phase::Lot | Phase::Search(_) | Phase::Raise { .. } => self.left as int,
            Phase::MorePlaza => self.left - 1,
            Phase::Done => 0,
        }
    }

    /// Whether nothing but plazas and roads can have been made yet.
    pub open spec fn is_early(self) -> bool {
        self.phase is Name || self.phase is Survey || self.phase is Plaza || self.phase is Centre
    }

    /// Whether the town is where its phase says: what is pending can be built in it, and there is
    /// room for what is still to be made.
    pub open spec fn plan_ok(self) -> bool {
        let plots = self.site.plots@;
        &&& self.phase.pending() is Some || self.phase is Lot || self.phase is MorePlaza
            ==> self.left > 0
        &&& self.phase is Centre ==> self.kind.spec_centre() is Some
        &&& self.is_early() ==> is_bare(plots) && self.centre is None
        &&& !self.is_early() && self.kind.spec_centre() is Some ==> self.centre is Some
        &&& self.phase.pending() matches Some(build) ==> self.kind.may_build(build)
        &&& self.kind is City && self.workshops == 0 ==> {
            &&& is_bare(plots)
            &&& self.phase.pending() matches Some(build) ==> build is Workshop
        }
        &&& self.phase matches Phase::Raise { build, aabr, door, dir, offset } ==> {
            &&& build.spec_plot_kind() is Some
            &&& build is Castle ==> castle_fits(aabr, offset as int)
            &&& self.site.access(door.x as int, door.y as int) == Some(dir)
            &&& self.site.plazas@.len() > 0
        }
        &&& self.links matches Some(links) ==> {
            &&& self.phase is Plaza || self.phase is MorePlaza
            &&& links.wf()
            &&& links.pathed@.len() + links.left <= ROADS_PER_PLAZA
        }
        &&& self.due matches Some(id) ==> {
            &&& self.links is Some
            &&& id.idx < plots.len()
            &&& plots[id.idx as int].kind is Plaza
        }
        &&& self.site.roads@.len() + self.roads_open() <= ROADS_PER_PLAZA
            * self.site.plazas@.len()
        &&& count_of(plots, |k: PlotKind| !(k is Road)) + self.plots_open() <= self.rounds + 1
            + self.kind.centre_count()
        &&& count_of(plots, |k: PlotKind| k.spec_has_structure()) + self.buildings_open()
            <= self.rounds + self.kind.centre_count()
    }

    /// What holds of a town at all times.
    pub open spec fn wf(self) -> bool {
        self.site.wf() && self.counts_ok() && self.plots_ok() && self.plan_ok()
    }

    /// Whether `(x, y)` is covered by the building in the middle.
    pub open spec fn is_centre_tile(self, x: int, y: int) -> bool {
        self.site.tiles.at(x, y).kind is Building && self.site.tiles.at(x, y).plot == self.centre
    }

    /// Whether the building in the middle, if it is raised, still covers its area, but for what
    /// plazas beside it can have taken from its edge.
    pub open spec fn centre_stands(self) -> bool {
        self.centre is Some ==> {
            let size = (self.kind.spec_centre()->0).1;
            &&& forall|x: int, y: int| #[trigger]
                middle_area(size).holds(x, y) ==> self.is_centre_tile(x, y) || is_near_plaza(
                    self.site,
                    x,
                    y,
                )
            &&& forall|x: int, y: int| #[trigger]
                middle_area(size - 3).holds(x, y) ==> self.is_centre_tile(x, y)
        }
    }

    /// Whether no building is in the way of another. This stays so as long as buildings are
    /// raised on areas that are clear.
    pub open spec fn undisturbed(self) -> bool {
        self.site.buildings_apart() && self.centre_stands()
    }

    /// More than the number of answers that the town can still take.
    pub open spec fn steps_left(self) -> int {
        let rest = 5 * self.left;
        match self.phase {
            Phase::Name => rest + 8,
            Phase::Survey => rest + 7,
            Phase::Plaza => rest + 6,
            Phase::Centre => rest + 5,
            Phase::Lot => rest + 4,
            Phase::Search(Build::DockClearing) => rest + 3,
            Phase::Search(_) => rest + 2,
            Phase::Raise { .. } => rest + 1,
            Phase::MorePlaza => rest + 1,
            Phase::Done => 0,
        }
    }

    /// Whether two towns have the same counters, and are towns of the same kind.
    pub open spec fn same_counts(self, other: Town) -> bool {
        &&& self.kind == other.kind
        &&& self.rounds == other.rounds
        &&& self.castles == other.castles
        &&& self.workshops == other.workshops
        &&& self.airship_docks == other.airship_docks
        &&& self.taverns == other.taverns
        &&& self.temples == other.temples
        &&& self.campfires == other.campfires
        &&& self.centre == other.centre
    }

    /// Whether two towns are the same in all that [`same_counts`](Town::same_counts) tells, but
    /// for the building in the middle.
    pub open spec fn same_but_centre(self, other: Town) -> bool {
        self.same_counts(Town { centre: self.centre, ..other })
    }

    /// Whether no plaza is being joined to others.
    pub open spec fn is_unlinked(self) -> bool {
        self.links is None && self.due is None
    }

    /// Whether this town is `other` at the end of its round, but for sites and counters.
    pub open spec fn is_round_after(self, other: Town) -> bool {
        self.left == other.left - 1 && self.phase == self.kind.round_start(self.left)
    }

    /// A town of which nothing has been built yet.
    pub fn start(site: Site, kind: TownKind, rounds: u32) -> (r: Town)
        requires
            site.blank(),
        ensures
            r.is_start(kind, rounds),
            r.site == site,
            r.wf(),
            r.undisturbed(),
    {
        Town {
            site,
            kind,
            phase: Phase::Name,
            rounds,
            left: rounds,
            castles: 0,
            workshops: 0,
            airship_docks: 0,
            taverns: 0,
            temples: 0,
            campfires: 0,
            centre: None,
            links: None,
            due: None,
        }
    }

    /// Whether nothing has been built yet.
    pub open spec fn is_start(self, kind: TownKind, rounds: u32) -> bool {
        &&& self.site.blank()
        &&& self.kind == kind
        &&& self.phase is Name
        &&& self.rounds == rounds
        &&& self.left == rounds
        &&& self.castles == 0
        &&& self.workshops == 0
        &&& self.airship_docks == 0
        &&& self.taverns == 0
        &&& self.temples == 0
        &&& self.campfires == 0
        &&& self.centre is None
        &&& self.is_unlinked()
    }

    /// Takes the name.
    pub fn take_name(&mut self, name: String)
        requires
            old(self).wf(),
            old(self).phase is Name,
        ensures
            final(self).wf(),
            final(self).steps_left() < old(self).steps_left(),
            final(self).phase == if old(self).kind.is_surveyed_first() {
                Phase::Survey
            } else {
                Phase::Plaza
            },
            final(self).left == old(self).left,
            final(self).same_counts(*old(self)),
            final(self).is_unlinked(),
            final(self).site == (Site { name, ..old(self).site }),
            old(self).undisturbed() ==> final(self).undisturbed(),
    {
        self.site.name = name;
        self.phase = match self.kind {
            TownKind::CliffTown | TownKind::Terracotta => Phase::Plaza,
            _ => Phase::Survey,
        };
    }

    /// Takes the survey of the land.
    pub fn survey(&mut self, surveys: &Vec<TileSurvey>)
        requires
            old(self).wf(),
            old(self).phase is Survey,
            survey_fits(surveys@),
        ensures
            final(self).wf(),
            final(self).steps_left() < old(self).steps_left(),
            final(self).phase is Plaza,
            final(self).left == old(self).left,
            final(self).same_counts(*old(self)),
            final(self).is_unlinked(),
            final(self).site.same_but_tiles(old(self).site),
            is_surveyed(
                old(self).site.origin,
                old(self).site.tiles,
                final(self).site.tiles,
                surveys@,
            ),
            old(self).undisturbed() ==> final(self).undisturbed(),
    {
        self.site.demarcate_obstacles(surveys);
        self.phase = Phase::Plaza;
        proof {
            if old(self).undisturbed() {
                assert forall|i: int, p: Vec2| #[trigger]
                    self.site.is_built_on(i, p) implies false by {
                    assert(!self.site.plots@[i].kind.spec_has_structure());
                }
            }
        }
    }

    /// Makes the plaza that was found, if any. It can then be joined to others.
    pub fn lay_plaza(&mut self, search: PlazaSearch, rng: &mut SiteRng, alt: i32) -> (r: Option<
        Id,
    >)
        requires
            old(self).wf(),
            old(self).phase is Plaza || old(self).phase is MorePlaza,
            old(self).links is None,
            search.is_on(old(self).site),
        ensures
            final(self).wf(),
            final(self).phase == old(self).phase,
            final(self).left == old(self).left,
            final(self).same_counts(*old(self)),
            final(self).due is None,
            r is Some <==> search.found is Some,
            search.found is None ==> final(self).site == old(self).site && final(self).links is None
                && *final(rng) == *old(rng),
            search.found matches Some(pos) ==> {
                &&& is_plaza_laid(
                    old(self).site,
                    final(self).site,
                    r->0,
                    pos,
                    search.radius,
                    old(rng).word(),
                    alt,
                )
                &&& *final(rng) == old(rng).skip(1)
                &&& final(self).links matches Some(links) && links.plaza == r->0 && links.pos == pos
                    && links.left == 0 && links.pathed@.len() == 0
            },
            old(self).undisturbed() ==> final(self).undisturbed(),
    {
        let r = search.lay(&mut self.site, rng, alt);
        if let (Some(id), Some(pos)) = (r, search.found) {
            self.links = Some(PlazaLinks::start(id, pos, 0));
            proof {
                lemma_plaza_keeps_town(*old(self), *self, id, pos, search.radius, alt);
            }
        }
        r
    }

    /// Sets how many roads are made from the plaza that was just made.
    pub fn join_plaza(&mut self, roads: u32)
        requires
            old(self).wf(),
            old(self).links matches Some(links) && links.pathed@.len() == 0,
            old(self).due is None,
            roads <= ROADS_PER_PLAZA,
        ensures
            final(self).wf(),
            final(self).phase == old(self).phase,
            final(self).left == old(self).left,
            final(self).same_counts(*old(self)),
            final(self).due is None,
            final(self).site == old(self).site,
            final(self).links == Some(PlazaLinks { left: roads, ..old(self).links->0 }),
            old(self).undisturbed() ==> final(self).undisturbed(),
    {
        if let Some(mut links) = self.links.take() {
            links.left = roads;
            self.links = Some(links);
        }
    }

    /// The plaza that the next road starts from, by [`PlazaLinks::next_link`].
    pub fn next_link(&mut self, opposed: &Vec<bool>) -> (r: Option<Id>)
        requires
            old(self).wf(),
            old(self).links is Some,
            old(self).due is None,
            opposed@.len() == old(self).site.plazas@.len(),
        ensures
            final(self).wf(),
            final(self).phase == old(self).phase,
            final(self).left == old(self).left,
            final(self).same_counts(*old(self)),
            final(self).site == old(self).site,
            final(self).due == r,
            final(self).links is Some,
            ({
                let links = old(self).links->0;
                let after = final(self).links->0;
                &&& after.plaza == links.plaza && after.pos == links.pos
                &&& links.left == 0 ==> r is None
                &&& links.left > 0 ==> old(self).site.is_next_plaza(
                    links.plaza,
                    links.pos,
                    links.pathed@,
                    opposed@,
                    r,
                )
                &&& r is None ==> after.left == 0 && after.pathed == links.pathed
                &&& r matches Some(id) ==> after.left == links.left - 1 && after.pathed@
                    == links.pathed@.push(id)
            }),
            old(self).undisturbed() ==> final(self).undisturbed(),
    {
        let mut r: Option<Id> = None;
        if let Some(mut links) = self.links.take() {
            r = links.next_link(&self.site, opposed);
            self.links = Some(links);
        }
        self.due = r;
        r
    }

    /// Makes the road that is due along a path that was found, if any. `alts` gives the altitude
    /// of each tile around the path, in the order of [`road_cells`](crate::roads::road_cells).
    pub fn create_road(
        &mut self,
        rng: &mut SiteRng,
        path: Option<Vec<Vec2>>,
        alts: &Vec<i32>,
    ) -> (r: Option<Id>)
        requires
            old(self).wf(),
            old(self).due is Some,
            path matches Some(nodes) ==> road_fits(nodes@, PLAZA_ROAD_WIDTH) && alts@.len()
                == nodes@.len() * cells_per_node(PLAZA_ROAD_WIDTH),
        ensures
            final(self).wf(),
            final(self).phase == old(self).phase,
            final(self).left == old(self).left,
            final(self).same_counts(*old(self)),
            final(self).links == old(self).links,
            final(self).due is None,
            r is Some <==> path is Some,
            path is None ==> final(self).site == old(self).site && *final(rng) == *old(rng),
            path matches Some(nodes) ==> {
                &&& is_road_added(
                    old(self).site,
                    final(self).site,
                    r->0,
                    old(self).site.plot_of(old(self).due->0).root_tile,
                    nodes@,
                    PLAZA_ROAD_WIDTH,
                    alts@,
                    old(rng).word(),
                )
                &&& *final(rng) == old(rng).skip(1)
            },
            old(self).undisturbed() ==> final(self).undisturbed(),
    {
        let start = match self.due {
            Some(id) => self.site.plot(id).root_tile,
            None => Vec2::zero(),
        };
        let ghost nodes = path->0@;
        let ghost seed = rng.word();
        let r = self.site.create_road(rng, start, path, PLAZA_ROAD_WIDTH, alts);
        self.due = None;
        proof {
            if r is Some {
                lemma_road_keeps_town(*old(self), *self, r->0, start, nodes, alts@, seed);
            }
        }
        r
    }

    /// Takes that a plaza has been made and joined to others, or that there is no place for one.
    pub fn plaza_made(&mut self)
        requires
            old(self).wf(),
            old(self).phase is Plaza || old(self).phase is MorePlaza,
        ensures
            final(self).wf(),
            final(self).steps_left() < old(self).steps_left(),
            final(self).site == old(self).site,
            final(self).same_counts(*old(self)),
            final(self).is_unlinked(),
            old(self).phase is Plaza ==> final(self).left == old(self).left && final(self).phase
                == old(self).kind.after_plaza(old(self).left),
            old(self).phase is MorePlaza ==> final(self).is_round_after(*old(self)),
            old(self).undisturbed() ==> final(self).undisturbed(),
    {
        self.links = None;
        self.due = None;
        match self.phase {
            Phase::Plaza => {
                self.phase = if self.kind.centre_size().is_some() {
                    Phase::Centre
                } else {
                    self.kind.next_round(self.left)
                };
            },
            _ => {
                self.left = self.left - 1;
                self.phase = self.kind.next_round(self.left);
            },
        }
    }

    /// Raises the building in the middle at an altitude.
    pub fn raise_centre(&mut self, rng: &mut SiteRng, alt: i32) -> (id: Id)
        requires
            old(self).wf(),
            old(self).phase is Centre,
        ensures
            final(self).wf(),
            final(self).steps_left() < old(self).steps_left(),
            ({
                let centre = old(self).kind.spec_centre()->0;
                is_placed(
                    old(self).site,
                    final(self).site,
                    id,
                    centre.0,
                    center_tile(middle_area(centre.1)),
                    middle_area(centre.1),
                    old(rng).word(),
                    TileKind::Building,
                    Some(alt),
                )
            }),
            final(self).site.plazas == old(self).site.plazas,
            final(self).site.roads == old(self).site.roads,
            *final(rng) == old(rng).skip(1),
            final(self).left == old(self).left,
            final(self).same_but_centre(*old(self)),
            final(self).centre == Some(id),
            final(self).is_unlinked(),
            final(self).phase == old(self).kind.round_start(old(self).left),
            old(self).undisturbed() ==> final(self).undisturbed(),
    {
        let (kind, size): (PlotKind, i32) = match self.kind {
            TownKind::SavannahPit => (PlotKind::SavannahPit, 11),
            TownKind::DesertCity => (PlotKind::DesertCityArena, 17),
            _ => (PlotKind::TerracottaPalace, 15),
        };
        let aabr = Aabr { min: Vec2 { x: -size, y: -size }, max: Vec2 { x: size, y: size } };
        let id = self.site.place(rng, kind, aabr, TileKind::Building, Some(alt));
        self.centre = Some(id);
        self.phase = self.kind.next_round(self.left);
        proof {
            lemma_counts_grow(old(self).site, self.site, id);
            lemma_building_keeps_plots(old(self).site, self.site, id);
            if old(self).undisturbed() {
                lemma_clear_area_keeps_apart(old(self).site, self.site, id, aabr);
            }
        }
        id
    }

    /// What a lot has built: nothing if the town has no use for it.
    pub open spec fn lot_build(self, lot: u32) -> Option<Build> {
        match self.kind {
            TownKind::City { max_workshops, large } => {
                if self.workshops == 0 || lot == 5 && self.workshops < max_workshops {
                    Some(Build::Workshop)
                } else if lot == 1 {
                    Some(Build::House)
                } else if lot == 2 {
                    Some(Build::GuardTower)
                } else if lot == 4 && self.castles < 1 {
                    Some(Build::Castle)
                } else if lot == 6 && large && self.airship_docks == 0 {
                    Some(Build::DockClearing)
                } else if lot == 7 && large && self.taverns < 2 {
                    Some(Build::Tavern)
                } else {
                    None
                }
            },
            TownKind::CliffTown => None,
            TownKind::SavannahPit => {
                if lot == 1 {
                    Some(Build::SavannahHut)
                } else if lot == 2 {
                    Some(Build::SavannahWorkshop)
                } else {
                    None
                }
            },
            TownKind::CoastalTown => {
                if lot == 1 {
                    Some(Build::CoastalHouse)
                } else if lot == 2 {
                    Some(Build::CoastalWorkshop)
                } else {
                    None
                }
            },
            TownKind::DesertCity => {
                if lot == 1 {
                    Some(Build::DesertCityMultiPlot)
                } else if lot == 2 && self.temples < 1 {
                    Some(Build::DesertCityTemple)
                } else {
                    None
                }
            },
            TownKind::Terracotta => {
                if lot == 1 {
                    Some(Build::TerracottaHouse)
                } else if lot == 2 {
                    Some(Build::TerracottaYard)
                } else {
                    None
                }
            },
        }
    }

    fn build_for(&self, lot: u32) -> (r: Option<Build>)
        ensures
            r == self.lot_build(lot),
    {
        match self.kind {
            TownKind::City { max_workshops, large } => match lot {
                n if self.workshops == 0 || n == 5 && (self.workshops as i64)
                    < max_workshops as i64 => Some(Build::Workshop),
                1 => Some(Build::House),
                2 => Some(Build::GuardTower),
                4 if self.castles < 1 => Some(Build::Castle),
                6 if large && self.airship_docks == 0 => Some(Build::DockClearing),
                7 if large && self.taverns < 2 => Some(Build::Tavern),
                _ => None,
            },
            TownKind::CliffTown => None,
            TownKind::SavannahPit => match lot {
                1 => Some(Build::SavannahHut),
                2 => Some(Build::SavannahWorkshop),
                _ => None,
            },
            TownKind::CoastalTown => match lot {
                1 => Some(Build::CoastalHouse),
                2 => Some(Build::CoastalWorkshop),
                _ => None,
            },
            TownKind::DesertCity => match lot {
                1 => Some(Build::DesertCityMultiPlot),
                2 if self.temples < 1 => Some(Build::DesertCityTemple),
                _ => None,
            },
            TownKind::Terracotta => match lot {
                1 => Some(Build::TerracottaHouse),
                2 => Some(Build::TerracottaYard),
                _ => None,
            },
        }
    }

    /// Takes the lot of the round.
    pub fn draw_lot(&mut self, lot: u32)
        requires
            old(self).wf(),
            old(self).phase is Lot,
        ensures
            final(self).wf(),
            final(self).steps_left() < old(self).steps_left(),
            final(self).site == old(self).site,
            final(self).same_counts(*old(self)),
            final(self).is_unlinked(),
            old(self).undisturbed() ==> final(self).undisturbed(),
            match old(self).lot_build(lot) {
                Some(build) => final(self).left == old(self).left && final(self).phase
                    == Phase::Search(build),
                None => final(self).is_round_after(*old(self)),
            },
    {
        match self.build_for(lot) {
            Some(build) => {
                self.phase = Phase::Search(build);
            },
            None => {
                self.left = self.left - 1;
                self.phase = self.kind.next_round(self.left);
            },
        }
    }

    /// What is needed after a search, if the round goes on.
    pub open spec fn after_search(
        build: Build,
        found: Option<(Aabr, Vec2, Vec2)>,
        offset: i32,
    ) -> Option<Phase> {
        match found {
            Some((aabr, door, dir)) => {
                if build is GuardTower {
                    None
                } else if build is DockClearing {
                    Some(Phase::Search(Build::AirshipDock))
                } else {
                    Some(
                        Phase::Raise {
                            build,
                            aabr,
                            door,
                            dir,
                            offset: if build is Castle {
                                offset
                            } else {
                                0
                            },
                        },
                    )
                }
            },
            None => if build.wants_plaza() {
                Some(Phase::MorePlaza)
            } else {
                None
            },
        }
    }

    /// One past the largest offset of a gate from the corner of a castle.
    pub open spec fn gate_end(aabr: Aabr) -> int {
        min_int(aabr.width(), aabr.height()) - 4
    }

    /// Whether a search is one for an area that `build` can be raised on.
    pub open spec fn is_search_for(search: AreaSearch, build: Build) -> bool {
        search.plan == build.plan(search.plan.min_width)
    }

    /// Takes what a search for an area, made by plan on this site, has come to. For a castle the
    /// place of its gate is drawn.
    pub fn take_area(&mut self, rng: &mut SiteRng, search: AreaSearch)
        requires
            old(self).wf(),
            old(self).phase is Search,
            search.is_on(old(self).site),
            search.spec_is_over(),
            Self::is_search_for(search, old(self).phase->Search_0),
            old(self).phase->Search_0 is Castle ==> (search.found matches Some((aabr, _, _)) ==> 5
                < Self::gate_end(aabr) <= i32::MAX),
        ensures
            final(self).wf(),
            final(self).steps_left() < old(self).steps_left(),
            final(self).site == old(self).site,
            final(self).same_counts(*old(self)),
            final(self).is_unlinked(),
            old(self).undisturbed() ==> final(self).undisturbed(),
            ({
                let build = old(self).phase->Search_0;
                let draws = build is Castle && search.found is Some;
                let end = Self::gate_end((search.found->0).0) as i32;
                &&& match Self::after_search(build, search.found, old(rng).range_value(5, end)) {
                    Some(phase) => final(self).left == old(self).left && final(self).phase == phase,
                    None => final(self).is_round_after(*old(self)),
                }
                &&& *final(rng) == if draws {
                    old(rng).after_range(5, end)
                } else {
                    *old(rng)
                }
            }),
            search.found is None && (old(self).kind is CliffTown || old(self).kind is SavannahPit
                || old(self).kind is CoastalTown || old(self).kind is Terracotta) ==> final(self).phase is MorePlaza && final(self).left == old(self).left,
            search.found is None ==> match old(self).phase->Search_0 {
                Build::GuardTower | Build::Castle | Build::DockClearing => old(self).kind is City
                    && final(self).left == old(self).left - 1,
                Build::DesertCityTemple => old(self).kind is DesertCity && final(self).left == old(
                    self,
                ).left - 1,
                _ => final(self).phase is MorePlaza && final(self).left == old(self).left,
            },
            search.found matches Some((aabr, door, dir)) ==> match old(self).phase->Search_0 {
                Build::GuardTower => final(self).left == old(self).left - 1,
                Build::DockClearing => final(self).phase == Phase::Search(Build::AirshipDock)
                    && final(self).left == old(self).left,
                Build::Castle => final(self).phase == (Phase::Raise {
                    build: Build::Castle,
                    aabr,
                    door,
                    dir,
                    offset: final(self).phase->offset,
                }) && final(self).left == old(self).left && 5 <= final(self).phase->offset && final(self).phase->offset + 5 <= aabr.max.x - aabr.min.x && final(self).phase->offset + 5
                    <= aabr.max.y - aabr.min.y,
                build => final(self).phase == (Phase::Raise { build, aabr, door, dir, offset: 0 })
                    && final(self).left == old(self).left,
            },
            final(self).left < old(self).left ==> final(self).phase == if final(self).left == 0 {
                Phase::Done
            } else if old(self).kind is CliffTown {
                Phase::Search(Build::CliffTower)
            } else {
                Phase::Lot
            },
    {
        let build = match self.phase {
            Phase::Search(build) => build,
            _ => Build::GuardTower,
        };
        match search.found {
            Some((aabr, door, dir)) => match build {
                Build::GuardTower => {
                    self.left = self.left - 1;
                    self.phase = self.kind.next_round(self.left);
                },
                Build::DockClearing => {
                    self.phase = Phase::Search(Build::AirshipDock);
                },
                Build::Castle => {
                    let w: i64 = aabr.max.x as i64 - aabr.min.x as i64;
                    let h: i64 = aabr.max.y as i64 - aabr.min.y as i64;
                    let end: i64 = if w <= h {
                        w - 4
                    } else {
                        h - 4
                    };
                    let offset = rng.next_range(5, end as i32);
                    self.phase = Phase::Raise { build, aabr, door, dir, offset };
                },
                _ => {
                    self.phase = Phase::Raise { build, aabr, door, dir, offset: 0 };
                },
            },
            None => match build {
                Build::GuardTower | Build::Castle | Build::DockClearing
                | Build::DesertCityTemple => {
                    self.left = self.left - 1;
                    self.phase = self.kind.next_round(self.left);
                },
                _ => {
                    self.phase = Phase::MorePlaza;
                },
            },
        }
    }

    /// The generator by which the building that is raised next is worked out, seeded from that of
    /// the town; nothing if it is worked out by that of the town itself, as castles are.
    pub fn inner_rng(&self, rng: &mut SiteRng) -> (r: Option<SiteRng>)
        requires
            self.phase is Centre || self.phase is Raise,
        ensures
            r is None <==> self.phase.pending() == Some(Build::Castle),
            r is None ==> *final(rng) == *old(rng),
            r matches Some(child) ==> child.is_child(*old(rng)) && *final(rng) == old(rng).skip(32),
    {
        match self.phase {
            Phase::Raise { build: Build::Castle, .. } => None,
            _ => Some(rng.reseed()),
        }
    }

    /// Whether the next building gets a campfire: the first four that can have one do.
    pub fn campfire(&self) -> (r: bool)
        ensures
            r == (self.campfires < 4),
    {
        self.campfires < 4
    }

    /// Whether this town is `other` with `build` counted.
    pub open spec fn counts_one_more(self, other: Town, build: Build) -> bool {
        let one = |b: bool| if b { 1int } else { 0int };
        &&& self.kind == other.kind
        &&& self.rounds == other.rounds
        &&& self.castles == other.castles + one(build is Castle)
        &&& self.workshops == other.workshops + one(build is Workshop)
        &&& self.airship_docks == other.airship_docks + one(build is AirshipDock)
        &&& self.taverns == other.taverns + one(build is Tavern)
        &&& self.temples == other.temples + one(build is DesertCityTemple)
        &&& self.campfires == other.campfires + one(
            build is CliffTower || build is DesertCityMultiPlot,
        )
        &&& self.centre == other.centre
    }

    /// Raises the pending building at an altitude, which ends the round.
    pub fn raise(&mut self, rng: &mut SiteRng, alt: i32) -> (id: Id)
        requires
            old(self).wf(),
            old(self).phase is Raise,
        ensures
            final(self).wf(),
            final(self).steps_left() < old(self).steps_left(),
            ({
                let build = old(self).phase->build;
                let aabr = old(self).phase->aabr;
                let offset = old(self).phase->offset;
                &&& if build is Castle {
                    is_castle(
                        old(self).site,
                        final(self).site,
                        id,
                        aabr,
                        offset as int,
                        old(rng).word(),
                        alt,
                    )
                } else {
                    is_placed(
                        old(self).site,
                        final(self).site,
                        id,
                        build.spec_plot_kind()->0,
                        center_tile(aabr),
                        aabr,
                        old(rng).word(),
                        TileKind::Building,
                        Some(alt),
                    )
                }
                &&& final(self).counts_one_more(*old(self), build)
            }),
            final(self).site.plazas == old(self).site.plazas,
            final(self).site.roads == old(self).site.roads,
            *final(rng) == old(rng).skip(1),
            final(self).is_round_after(*old(self)),
            final(self).is_unlinked(),
            old(self).undisturbed() && old(self).site.is_clear(old(self).phase->aabr)
                ==> final(self).undisturbed(),
    {
        let (build, aabr, offset): (Build, Aabr, i32) = match self.phase {
            Phase::Raise { build, aabr, offset, .. } => (build, aabr, offset),
            _ => (Build::House, Aabr { min: Vec2::zero(), max: Vec2::zero() }, 0),
        };
        let id = match build {
            Build::Castle => self.site.raise_castle(rng, aabr, offset, alt),
            _ => {
                let kind = match build.plot_kind() {
                    Some(kind) => kind,
                    None => PlotKind::House,
                };
                self.site.place(rng, kind, aabr, TileKind::Building, Some(alt))
            },
        };
        proof {
            lemma_counts_grow(old(self).site, self.site, id);
            lemma_building_keeps_plots(old(self).site, self.site, id);
            if old(self).kind is City && old(self).workshops > 0 {
                lemma_counted_plots_exist(old(self).site.plots@, |k: PlotKind| k is Workshop);
            }
            if old(self).undisturbed() && old(self).site.is_clear(aabr) {
                lemma_clear_area_keeps_apart(old(self).site, self.site, id, aabr);
            }
        }
        match build {
            Build::Castle => {
                self.castles = self.castles + 1;
            },
            Build::Workshop => {
                self.workshops = self.workshops + 1;
            },
            Build::AirshipDock => {
                self.airship_docks = self.airship_docks + 1;
            },
            Build::Tavern => {
                self.taverns = self.taverns + 1;
            },
            Build::DesertCityTemple => {
                self.temples = self.temples + 1;
            },
            Build::CliffTower | Build::DesertCityMultiPlot => {
                self.campfires = self.campfires + 1;
            },
            _ => {},
        }
        self.left = self.left - 1;
        self.phase = self.kind.next_round(self.left);
        id
    }

    /// The finished settlement.
    pub fn finish(self) -> (r: Site)
        requires
            self.phase is Done,
        ensures
            r == self.site,
    {
        self.site
    }
}

/// All counts of a town grow by one for a new plot that they are about.
pub(crate) proof fn lemma_counts_grow(before: Site, after: Site, id: Id)
    requires
        after.has_new_plot(before, id),
    ensures
        ({
            let kind = after.plot_of(id).kind;
            let b = before.plots@;
            let a = after.plots@;
            let one = |yes: bool| if yes { 1nat } else { 0nat };
            &&& count_of(a, |k: PlotKind| k is Castle) == count_of(b, |k: PlotKind| k is Castle)
                + one(kind is Castle)
            &&& count_of(a, |k: PlotKind| k is Workshop) == count_of(
                b,
                |k: PlotKind| k is Workshop,
            ) + one(kind is Workshop)
            &&& count_of(a, |k: PlotKind| k is AirshipDock) == count_of(
                b,
                |k: PlotKind| k is AirshipDock,
            ) + one(kind is AirshipDock)
            &&& count_of(a, |k: PlotKind| k is Tavern) == count_of(b, |k: PlotKind| k is Tavern)
                + one(kind is Tavern)
            &&& count_of(a, |k: PlotKind| k is DesertCityTemple) == count_of(
                b,
                |k: PlotKind| k is DesertCityTemple,
            ) + one(kind is DesertCityTemple)
            &&& count_of(a, |k: PlotKind| k.spec_has_structure()) == count_of(
                b,
                |k: PlotKind| k.spec_has_structure(),
            ) + one(kind.spec_has_structure())
            &&& count_of(a, |k: PlotKind| !(k is Road)) == count_of(b, |k: PlotKind| !(k is Road))
                + one(!(kind is Road))
            &&& count_of(a, |k: PlotKind| k is CliffTower || k is DesertCityMultiPlot) == count_of(
                b,
                |k: PlotKind| k is CliffTower || k is DesertCityMultiPlot,
            ) + one(kind is CliffTower || kind is DesertCityMultiPlot)
        }),
{
    let b = before.plots@;
    let a = after.plots@;
    lemma_count_grows(b, a, |k: PlotKind| k is Castle);
    lemma_count_grows(b, a, |k: PlotKind| k is Workshop);
    lemma_count_grows(b, a, |k: PlotKind| k is AirshipDock);
    lemma_count_grows(b, a, |k: PlotKind| k is Tavern);
    lemma_count_grows(b, a, |k: PlotKind| k is DesertCityTemple);
    lemma_count_grows(b, a, |k: PlotKind| k is CliffTower || k is DesertCityMultiPlot);
    lemma_count_grows(b, a, |k: PlotKind| !(k is Road));
    lemma_count_grows(b, a, |k: PlotKind| k.spec_has_structure());
}

/// A new plot that is neither plaza nor road leaves plazas apart, and all lists as they were.
proof fn lemma_building_keeps_plots(before: Site, after: Site, id: Id)
    requires
        before.wf(),
        before.plazas_apart(),
        lists_all(before.plazas@, before.plots@, |k: PlotKind| k is Plaza),
        lists_all(before.roads@, before.plots@, |k: PlotKind| k is Road),
        after.has_new_plot(before, id),
        after.plot_of(id).kind.spec_has_structure(),
        after.plazas == before.plazas,
        after.roads == before.roads,
    ensures
        after.plazas_apart(),
        lists_all(after.plazas@, after.plots@, |k: PlotKind| k is Plaza),
        lists_all(after.roads@, after.plots@, |k: PlotKind| k is Road),
        forall|i: int|
            0 <= i < before.plots@.len() ==> (#[trigger] after.plots@[i]) == before.plots@[i],
        forall|x: int, y: int| #[trigger]
            is_near_plaza(after, x, y) <== is_near_plaza(before, x, y),
        forall|i: int| #[trigger]
            is_first_building(after.plots@, i) ==> is_first_building(before.plots@, i) || i
                == id.idx && is_bare(before.plots@),
{
    lemma_other_plots_stay(before, after, id);
    lemma_list_grows(before.plazas@, before, after, id, |k: PlotKind| k is Plaza);
    lemma_list_grows(before.roads@, before, after, id, |k: PlotKind| k is Road);
    lemma_plazas_stay_near(before, after);
    assert forall|i: int| #[trigger] is_first_building(after.plots@, i) implies is_first_building(
        before.plots@,
        i,
    ) || i == id.idx && is_bare(before.plots@) by {
        if i < before.plots@.len() {
            assert forall|j: int| 0 <= j < i implies !(
            #[trigger] before.plots@[j]).kind.spec_has_structure() by {
                assert(after.plots@[j] == before.plots@[j]);
            }
        } else {
            assert forall|j: int| 0 <= j < before.plots@.len() implies !(
            #[trigger] before.plots@[j]).kind.spec_has_structure() by {
                assert(after.plots@[j] == before.plots@[j]);
            }
        }
    }
}

/// What plazas can reach, they still can once plots are added.
proof fn lemma_plazas_stay_near(before: Site, after: Site)
    requires
        before.wf(),
        forall|i: int|
            0 <= i < before.plots@.len() ==> (#[trigger] after.plots@[i]) == before.plots@[i],
        before.plazas@.len() <= after.plazas@.len(),
        forall|k: int|
            0 <= k < before.plazas@.len() ==> (#[trigger] after.plazas@[k]) == before.plazas@[k],
    ensures
        forall|x: int, y: int| #[trigger]
            is_near_plaza(after, x, y) <== is_near_plaza(before, x, y),
{
    assert forall|x: int, y: int| is_near_plaza(before, x, y) implies #[trigger] is_near_plaza(
        after,
        x,
        y,
    ) by {
        let k = choose|k: int|
            0 <= k < before.plazas@.len() && can_reach(
                before.plot_of(#[trigger] before.plazas@[k]).root_tile,
                x,
                y,
            );
        assert(after.plazas@[k] == before.plazas@[k]);
        assert(after.plots@[after.plazas@[k].idx as int] == before.plots@[before.plazas@[k].idx
            as int]);
    }
}

/// A town stays as it should be when a plaza is made where there is a place for one.
proof fn lemma_plaza_keeps_town(
    before: Town,
    after: Town,
    id: Id,
    pos: Vec2,
    radius: i32,
    alt: i32,
)
    requires
        before.wf(),
        before.phase is Plaza || before.phase is MorePlaza,
        before.links is None,
        1 <= radius <= 3,
        -47 < pos.x < 47,
        -47 < pos.y < 47,
        before.site.is_plaza_free(pos, radius as int),
        is_plaza_laid(
            before.site,
            after.site,
            id,
            pos,
            radius,
            after.site.plot_of(id).seed,
            alt,
        ),
        after.site.wf(),
        after.site.plazas_apart(),
        after.same_counts(before),
        after.left == before.left,
        after.phase == before.phase,
        after.due is None,
        after.links matches Some(links) && links.wf() && links.left == 0 && links.pathed@.len()
            == 0,
    ensures
        after.wf(),
        before.undisturbed() ==> after.undisturbed(),
{
    lemma_counts_grow(before.site, after.site, id);
    lemma_other_plots_stay(before.site, after.site, id);
    lemma_list_grows(before.site.plazas@, before.site, after.site, id, |k: PlotKind| k is Plaza);
    lemma_list_grows(before.site.roads@, before.site, after.site, id, |k: PlotKind| k is Road);
    assert forall|k: int| 0 <= k < before.site.plazas@.len() implies (
    #[trigger] after.site.plazas@[k]) == before.site.plazas@[k] by {}
    lemma_plazas_stay_near(before.site, after.site);
    lemma_open_ground_keeps_first(before.site, after.site, id);
    if before.undisturbed() {
        lemma_open_ground_keeps_apart(before.site, after.site, id);
        if before.centre is Some {
            let size = (before.kind.spec_centre()->0).1;
            let n = before.site.plazas@.len() as int;
            assert(after.site.plazas@[n] == id);
            if middle_area(size).holds(pos.x as int, pos.y as int) {
                if !before.is_centre_tile(pos.x as int, pos.y as int) {
                    let k = choose|k: int|
                        0 <= k < before.site.plazas@.len() && can_reach(
                            before.site.plot_of(#[trigger] before.site.plazas@[k]).root_tile,
                            pos.x as int,
                            pos.y as int,
                        );
                    let root = before.site.plot_of(before.site.plazas@[k]).root_tile;
                    lemma_reach_is_near(root, pos, radius as int);
                    assert(false);
                }
            }
            assert forall|x: int, y: int| #[trigger]
                middle_area(size).holds(x, y) implies after.is_centre_tile(x, y) || is_near_plaza(
                after.site,
                x,
                y,
            ) by {
                if plaza_area(pos, radius as int).holds(x, y) {
                    assert(can_reach(after.site.plot_of(after.site.plazas@[n]).root_tile, x, y));
                } else if !before.is_centre_tile(x, y) {
                    assert(is_near_plaza(before.site, x, y));
                }
            }
            assert forall|x: int, y: int| #[trigger]
                middle_area(size - 3).holds(x, y) implies after.is_centre_tile(x, y) by {
                assert(before.is_centre_tile(x, y));
            }
        }
    }
}

/// A place that another plaza can reach is too near to it for a plaza.
proof fn lemma_reach_is_near(root: Vec2, pos: Vec2, radius: int)
    requires
        1 <= radius <= 3,
        can_reach(root, pos.x as int, pos.y as int),
    ensures
        !is_far_enough(root.distance_squared_to(pos), radius),
{
    let dx = root.x - pos.x;
    let dy = root.y - pos.y;
    assert(dx * dx + dy * dy <= 18) by (nonlinear_arith)
        requires
            -3 <= dx <= 3,
            -3 <= dy <= 3,
    ;
    assert((13 + 8 * radius) * (13 + 8 * radius) >= 21 * 21) by (nonlinear_arith)
        requires
            radius >= 1,
    ;
}

/// A plaza or a road is not the first building.
proof fn lemma_open_ground_keeps_first(before: Site, after: Site, id: Id)
    requires
        after.has_new_plot(before, id),
        !after.plot_of(id).kind.spec_has_structure(),
    ensures
        forall|i: int| #[trigger]
            is_first_building(after.plots@, i) ==> is_first_building(before.plots@, i),
        is_bare(before.plots@) ==> is_bare(after.plots@),
{
    lemma_other_plots_stay(before, after, id);
    assert forall|i: int| #[trigger] is_first_building(after.plots@, i) implies is_first_building(
        before.plots@,
        i,
    ) by {
        assert(i < before.plots@.len());
        assert forall|j: int| 0 <= j < i implies !(
        #[trigger] before.plots@[j]).kind.spec_has_structure() by {
            assert(after.plots@[j] == before.plots@[j]);
        }
    }
}

/// A town stays as it should be when the road that is due is made.
proof fn lemma_road_keeps_town(
    before: Town,
    after: Town,
    id: Id,
    start: Vec2,
    path: Seq<Vec2>,
    alts: Seq<i32>,
    seed: u32,
)
    requires
        before.wf(),
        before.due is Some,
        is_road_added(
            before.site,
            after.site,
            id,
            start,
            path,
            PLAZA_ROAD_WIDTH,
            alts,
            seed,
        ),
        after.site.wf(),
        after.same_counts(before),
        after.left == before.left,
        after.phase == before.phase,
        after.links == before.links,
        after.due is None,
    ensures
        after.wf(),
        before.undisturbed() ==> after.undisturbed(),
{
    lemma_counts_grow(before.site, after.site, id);
    lemma_other_plots_stay(before.site, after.site, id);
    lemma_list_grows(before.site.plazas@, before.site, after.site, id, |k: PlotKind| k is Plaza);
    lemma_list_grows(before.site.roads@, before.site, after.site, id, |k: PlotKind| k is Road);
    lemma_plazas_stay_near(before.site, after.site);
    lemma_open_ground_keeps_first(before.site, after.site, id);
    assert(after.site.plazas_apart());
    if before.undisturbed() {
        lemma_open_ground_keeps_apart(before.site, after.site, id);
    }
}

} // verus!
