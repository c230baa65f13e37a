//! What holds of the rounds in which settlements are built.

use crate::geom::{Aabr, Vec2};
use crate::layout_laws::law_plazas_keep_their_distance;
use crate::names::{haniwa_words, terracotta_words, NameStyle};
use crate::obstacles::{SURVEY_PROBES, SURVEY_RADIUS};
use crate::plaza::{is_far_enough, PlazaSearch};
use crate::plot::{Plot, PlotKind};
use crate::rng::{word_after, SiteRng};
use crate::search::AreaSearch;
use crate::site::{center_tile, Site};
use crate::town::{
    can_reach, count_of, is_near_plaza, middle_area, Build, Phase, Town, TownKind,
    AIRSHIP_DOCK_SIZE,
};
use vstd::prelude::*;

verus! {

/// In a cliff town, a savannah pit, a coastal town and a terracotta town every search that ends
/// without an area leads to one more plaza. Only in a city, for a guard tower, a castle or a
/// clearing for a dock, and in a desert city, for a temple, the round ends there.
pub proof fn law_failed_searches_lead_to_plazas(kind: TownKind, build: Build, offset: i32)
    requires
        kind.may_build(build),
    ensures
        kind is CliffTown || kind is SavannahPit || kind is CoastalTown || kind is Terracotta
            ==> Town::after_search(build, None, offset) == Some(Phase::MorePlaza),
        kind is City ==> (Town::after_search(build, None, offset) is None <==> build
            == Build::GuardTower || build == Build::Castle || build == Build::DockClearing),
        kind is DesertCity ==> (Town::after_search(build, None, offset) is None <==> build
            == Build::DesertCityTemple),
        Town::after_search(build, None, offset) is Some ==> Town::after_search(build, None, offset)
            == Some(Phase::MorePlaza),
{
}

/// The same, for every build by its name and whatever the town.
pub proof fn law_failed_searches_by_build(offset: i32)
    ensures
        Town::after_search(Build::GuardTower, None, offset) is None,
        Town::after_search(Build::Castle, None, offset) is None,
        Town::after_search(Build::DockClearing, None, offset) is None,
        Town::after_search(Build::DesertCityTemple, None, offset) is None,
        Town::after_search(Build::Workshop, None, offset) == Some(Phase::MorePlaza),
        Town::after_search(Build::House, None, offset) == Some(Phase::MorePlaza),
        Town::after_search(Build::AirshipDock, None, offset) == Some(Phase::MorePlaza),
        Town::after_search(Build::Tavern, None, offset) == Some(Phase::MorePlaza),
        Town::after_search(Build::CliffTower, None, offset) == Some(Phase::MorePlaza),
        Town::after_search(Build::SavannahHut, None, offset) == Some(Phase::MorePlaza),
        Town::after_search(Build::SavannahWorkshop, None, offset) == Some(Phase::MorePlaza),
        Town::after_search(Build::CoastalHouse, None, offset) == Some(Phase::MorePlaza),
        Town::after_search(Build::CoastalWorkshop, None, offset) == Some(Phase::MorePlaza),
        Town::after_search(Build::DesertCityMultiPlot, None, offset) == Some(Phase::MorePlaza),
        Town::after_search(Build::TerracottaHouse, None, offset) == Some(Phase::MorePlaza),
        Town::after_search(Build::TerracottaYard, None, offset) == Some(Phase::MorePlaza),
{
}

/// A search that ends with an area leads to the building being raised there, with the door that was
/// found. A clearing for a dock leads to a search for the dock instead, a guard tower is left at
/// that. Only a castle's gate is offset.
pub proof fn law_found_areas_are_built_on(
    build: Build,
    aabr: Aabr,
    door: Vec2,
    dir: Vec2,
    offset: i32,
)
    ensures
        ({
            let next = Town::after_search(build, Some((aabr, door, dir)), offset);
            &&& build == Build::GuardTower <==> next is None
            &&& build == Build::DockClearing ==> next == Some(Phase::Search(Build::AirshipDock))
            &&& build == Build::Castle ==> next == Some(
                Phase::Raise { build: Build::Castle, aabr, door, dir, offset },
            )
            &&& build != Build::GuardTower && build != Build::DockClearing && build != Build::Castle
                ==> next == Some(Phase::Raise { build, aabr, door, dir, offset: 0 })
        }),
{
}

/// A round that follows another starts with a lot, in a cliff town with a search for a tower; after
/// the last there is nothing.
pub proof fn law_rounds_follow_each_other(town: Town, next: Town)
    requires
        next.kind == town.kind,
        next.is_round_after(town),
    ensures
        next.left == town.left - 1,
        next.left == 0 ==> next.phase == Phase::Done,
        next.left > 0 && town.kind is CliffTown ==> next.phase == Phase::Search(Build::CliffTower),
        next.left > 0 && !(town.kind is CliffTown) ==> next.phase == Phase::Lot,
{
}

/// How a town starts: in a savannah pit, a desert city and a terracotta town the building in the
/// middle comes after the first plaza, in all others the first round. The land is surveyed before,
/// except for cliff towns and terracotta towns.
pub proof fn law_towns_start_with_a_plaza(kind: TownKind, left: u32)
    ensures
        kind is SavannahPit || kind is DesertCity || kind is Terracotta ==> kind.after_plaza(left)
            == Phase::Centre,
        kind is City || kind is CoastalTown ==> kind.after_plaza(left) == if left == 0 {
            Phase::Done
        } else {
            Phase::Lot
        },
        kind is CliffTown ==> kind.after_plaza(left) == if left == 0 {
            Phase::Done
        } else {
            Phase::Search(Build::CliffTower)
        },
        left == 0 ==> kind.round_start(left) == Phase::Done,
        left > 0 && kind is CliffTown ==> kind.round_start(left) == Phase::Search(
            Build::CliffTower,
        ),
        left > 0 && !(kind is CliffTown) ==> kind.round_start(left) == Phase::Lot,
        kind.is_surveyed_first() <==> kind is City || kind is SavannahPit || kind is CoastalTown
            || kind is DesertCity,
{
}

/// The building in the middle of a town, and how many tiles it covers on either side of it.
pub proof fn law_middles_of_towns(kind: TownKind, size: int, x: int, y: int)
    requires
        0 <= size <= 0x1000_0000,
    ensures
        kind is SavannahPit ==> kind.spec_centre() == Some((PlotKind::SavannahPit, 11int)),
        kind is DesertCity ==> kind.spec_centre() == Some((PlotKind::DesertCityArena, 17int)),
        kind is Terracotta ==> kind.spec_centre() == Some((PlotKind::TerracottaPalace, 15int)),
        kind is City || kind is CliffTown || kind is CoastalTown ==> kind.spec_centre() is None,
        middle_area(size).min == (Vec2 { x: (-size) as i32, y: (-size) as i32 }),
        middle_area(size).max == (Vec2 { x: size as i32, y: size as i32 }),
        middle_area(size).holds(x, y) <==> -size <= x < size && -size <= y < size,
        center_tile(middle_area(size)) == (Vec2 { x: 0, y: 0 }),
{
}

/// What a lot has built in a city. The first building is a workshop whatever the lot. Each of the
/// others comes for one lot, as long as there is need and, for taverns and docks, the city is large.
pub proof fn law_lots_of_cities(town: Town, lot: u32)
    requires
        town.kind is City,
    ensures
        ({
            let most = town.kind->max_workshops;
            let large = town.kind->large;
            let r = town.lot_build(lot);
            &&& town.workshops == 0 ==> r == Some(Build::Workshop)
            &&& town.workshops > 0 ==> {
                &&& lot == 1 ==> r == Some(Build::House)
                &&& lot == 2 ==> r == Some(Build::GuardTower)
                &&& lot == 4 ==> r == if town.castles == 0 {
                    Some(Build::Castle)
                } else {
                    None
                }
                &&& lot == 5 ==> r == if town.workshops < most {
                    Some(Build::Workshop)
                } else {
                    None
                }
                &&& lot == 6 ==> r == if large && town.airship_docks == 0 {
                    Some(Build::DockClearing)
                } else {
                    None
                }
                &&& lot == 7 ==> r == if large && (town.taverns == 0 || town.taverns == 1) {
                    Some(Build::Tavern)
                } else {
                    None
                }
                &&& lot == 0 || lot == 3 || lot > 7 ==> r is None
            }
        }),
{
}

/// What a lot has built elsewhere. A desert city needs no second temple.
pub proof fn law_lots_of_other_towns(town: Town, lot: u32)
    ensures
        town.kind is CliffTown ==> town.lot_build(lot) is None,
        town.kind is SavannahPit && lot == 1 ==> town.lot_build(lot) == Some(Build::SavannahHut),
        town.kind is SavannahPit && lot == 2 ==> town.lot_build(lot) == Some(
            Build::SavannahWorkshop,
        ),
        town.kind is CoastalTown && lot == 1 ==> town.lot_build(lot) == Some(Build::CoastalHouse),
        town.kind is CoastalTown && lot == 2 ==> town.lot_build(lot) == Some(
            Build::CoastalWorkshop,
        ),
        town.kind is DesertCity && lot == 1 ==> town.lot_build(lot) == Some(
            Build::DesertCityMultiPlot,
        ),
        town.kind is DesertCity && lot == 2 && town.temples == 0 ==> town.lot_build(lot) == Some(
            Build::DesertCityTemple,
        ),
        town.kind is DesertCity && lot == 2 && town.temples > 0 ==> town.lot_build(lot) is None,
        town.kind is Terracotta && lot == 1 ==> town.lot_build(lot) == Some(
            Build::TerracottaHouse,
        ),
        town.kind is Terracotta && lot == 2 ==> town.lot_build(lot) == Some(Build::TerracottaYard),
        !(town.kind is City) && lot != 1 && lot != 2 ==> town.lot_build(lot) is None,
{
}

/// How often each lot is drawn: a city knows seven lots, the other towns two, a cliff town none.
/// Lots are numbered from one on.
pub proof fn law_weights_of_lots(kind: TownKind, i: int)
    ensures
        kind is City ==> kind.spec_lots().len() == 7,
        kind is CliffTown ==> kind.spec_lots().len() == 0,
        kind is SavannahPit || kind is CoastalTown || kind is DesertCity || kind is Terracotta
            ==> kind.spec_lots().len() == 2,
        0 <= i < kind.spec_lots().len() ==> kind.spec_lots()[i].1 == i + 1,
        kind is City ==> {
            &&& kind.spec_lots()[0].0 == 64
            &&& kind.spec_lots()[1].0 == 5
            &&& kind.spec_lots()[2].0 == 8
            &&& kind.spec_lots()[3].0 == 5
            &&& kind.spec_lots()[4].0 == 5
            &&& kind.spec_lots()[5].0 == 15
            &&& kind.spec_lots()[6].0 == 15
        },
        kind is SavannahPit || kind is CoastalTown ==> kind.spec_lots()[0].0 == 38
            && kind.spec_lots()[1].0 == 7,
        kind is DesertCity ==> kind.spec_lots()[0].0 == 20 && kind.spec_lots()[1].0 == 10,
        kind is Terracotta ==> kind.spec_lots()[0].0 == 12 && kind.spec_lots()[1].0 == 4,
{
}

/// What a search is for. A guard tower and a clearing for a dock need four tiles and ten tries, a
/// castle sixteen by sixteen tiles and up to eighteen by eighteen. Every other building is looked
/// for thirty-two times, is as wide and high as was asked for at least, and covers no more than one
/// tile more each way.
pub proof fn law_search_plans(build: Build, size: u32)
    requires
        size <= 0x1000,
    ensures
        ({
            let plan = build.plan(size);
            let small = build == Build::GuardTower || build == Build::DockClearing;
            &&& small ==> plan.attempts == 10 && plan.min_area == 4 && plan.max_area == 4
                && plan.min_width == 2 && plan.min_height == 2
            &&& build == Build::Castle ==> plan.attempts == 32 && plan.min_area == 16 * 16
                && plan.max_area == 18 * 18 && plan.min_width == 16 && plan.min_height == 16
            &&& !small && build != Build::Castle ==> {
                &&& plan.attempts == 32
                &&& plan.min_width == size
                &&& plan.min_height == size
                &&& plan.max_area == size * size + 2 * size + 1
            }
            &&& build == Build::Workshop || build == Build::House || build == Build::AirshipDock
                || build == Build::SavannahHut || build == Build::SavannahWorkshop ==> plan.min_area
                == 4
            &&& build == Build::Tavern || build == Build::CoastalHouse || build
                == Build::CoastalWorkshop ==> plan.min_area == 7
            &&& build == Build::CliffTower || build == Build::DesertCityMultiPlot || build
                == Build::DesertCityTemple ==> plan.min_area == 8
            &&& build == Build::TerracottaHouse || build == Build::TerracottaYard ==> plan.min_area
                == 9
        }),
{
    assert((size + 1) * (size + 1) == size * size + 2 * size + 1) by (nonlinear_arith);
    assert(0 <= size * size <= 0x1000 * 0x1000) by (nonlinear_arith)
        requires
            0 <= size <= 0x1000,
    ;
}

/// How large buildings are, in half tiles: the least and how much more it can be. The others have a
/// size of their own.
pub proof fn law_sizes_of_buildings(build: Build)
    ensures
        build == Build::Workshop ==> build.spec_size_halves() == Some((6u32, 3u32)),
        build == Build::House ==> build.spec_size_halves() == Some((3u32, 2u32)),
        build == Build::Tavern ==> build.spec_size_halves() == Some((7u32, 4u32)),
        build == Build::CliffTower ==> build.spec_size_halves() == Some((18u32, 2u32)),
        build == Build::SavannahHut ==> build.spec_size_halves() == Some((8u32, 3u32)),
        build == Build::SavannahWorkshop ==> build.spec_size_halves() == Some((8u32, 3u32)),
        build == Build::CoastalHouse ==> build.spec_size_halves() == Some((14u32, 3u32)),
        build == Build::CoastalWorkshop ==> build.spec_size_halves() == Some((14u32, 3u32)),
        build == Build::DesertCityMultiPlot ==> build.spec_size_halves() == Some((18u32, 3u32)),
        build == Build::DesertCityTemple ==> build.spec_size_halves() == Some((18u32, 3u32)),
        build == Build::TerracottaHouse ==> build.spec_size_halves() == Some((18u32, 3u32)),
        build == Build::TerracottaYard ==> build.spec_size_halves() == Some((18u32, 3u32)),
        build.spec_size_halves() is None <==> build == Build::GuardTower || build
            == Build::DockClearing || build == Build::Castle || build == Build::AirshipDock,
{
}

/// What is built becomes a plot of the kind that it is called after; guard towers and clearings
/// become none.
pub proof fn law_plots_of_buildings(build: Build)
    ensures
        build.spec_plot_kind() is None <==> build == Build::GuardTower || build
            == Build::DockClearing,
        build == Build::Workshop <==> build.spec_plot_kind() == Some(PlotKind::Workshop),
        build == Build::House <==> build.spec_plot_kind() == Some(PlotKind::House),
        build == Build::Castle <==> build.spec_plot_kind() == Some(PlotKind::Castle),
        build == Build::AirshipDock <==> build.spec_plot_kind() == Some(PlotKind::AirshipDock),
        build == Build::Tavern <==> build.spec_plot_kind() == Some(PlotKind::Tavern),
        build == Build::CliffTower <==> build.spec_plot_kind() == Some(PlotKind::CliffTower),
        build == Build::SavannahHut <==> build.spec_plot_kind() == Some(PlotKind::SavannahHut),
        build == Build::SavannahWorkshop <==> build.spec_plot_kind() == Some(
            PlotKind::SavannahWorkshop,
        ),
        build == Build::CoastalHouse <==> build.spec_plot_kind() == Some(PlotKind::CoastalHouse),
        build == Build::CoastalWorkshop <==> build.spec_plot_kind() == Some(
            PlotKind::CoastalWorkshop,
        ),
        build == Build::DesertCityMultiPlot <==> build.spec_plot_kind() == Some(
            PlotKind::DesertCityMultiPlot,
        ),
        build == Build::DesertCityTemple <==> build.spec_plot_kind() == Some(
            PlotKind::DesertCityTemple,
        ),
        build == Build::TerracottaHouse <==> build.spec_plot_kind() == Some(
            PlotKind::TerracottaHouse,
        ),
        build == Build::TerracottaYard <==> build.spec_plot_kind() == Some(
            PlotKind::TerracottaYard,
        ),
{
}

/// What can be built in a town, besides plazas and roads.
pub proof fn law_towns_build_what_is_theirs(kind: TownKind, build: Build)
    ensures
        kind.may_build(build) <==> match build {
            Build::Workshop | Build::House | Build::GuardTower | Build::Castle => kind is City,
            Build::DockClearing | Build::AirshipDock | Build::Tavern => kind is City && kind->large,
            Build::CliffTower => kind is CliffTown,
            Build::SavannahHut | Build::SavannahWorkshop => kind is SavannahPit,
            Build::CoastalHouse | Build::CoastalWorkshop => kind is CoastalTown,
            Build::DesertCityMultiPlot | Build::DesertCityTemple => kind is DesertCity,
            Build::TerracottaHouse | Build::TerracottaYard => kind is Terracotta,
        },
        build.spec_plot_kind() matches Some(plot) ==> (kind.may_build(build)
            <==> kind.may_hold(plot)),
        kind.may_hold(PlotKind::Plaza),
        kind.spec_centre() matches Some(centre) ==> kind.may_hold(centre.0),
{
}

/// A building that is raised is counted once: by the counter for its kind, if there is one.
pub proof fn law_buildings_are_counted(town: Town, next: Town, build: Build)
    requires
        next.counts_one_more(town, build),
    ensures
        next.castles == if build == Build::Castle {
            town.castles + 1
        } else {
            town.castles as int
        },
        next.workshops == if build == Build::Workshop {
            town.workshops + 1
        } else {
            town.workshops as int
        },
        next.airship_docks == if build == Build::AirshipDock {
            town.airship_docks + 1
        } else {
            town.airship_docks as int
        },
        next.taverns == if build == Build::Tavern {
            town.taverns + 1
        } else {
            town.taverns as int
        },
        next.temples == if build == Build::DesertCityTemple {
            town.temples + 1
        } else {
            town.temples as int
        },
        next.campfires == if build == Build::CliffTower || build == Build::DesertCityMultiPlot {
            town.campfires + 1
        } else {
            town.campfires as int
        },
        next.kind == town.kind,
        next.rounds == town.rounds,
        next.centre == town.centre,
{
}

/// A count goes up by one with each plot that it is about, and starts at nothing.
pub proof fn law_counts_go_up_by_one(
    plots: Seq<Plot>,
    plot: Plot,
    wanted: spec_fn(PlotKind) -> bool,
)
    ensures
        count_of(Seq::empty(), wanted) == 0,
        wanted(plot.kind) ==> count_of(plots.push(plot), wanted) == count_of(plots, wanted) + 1,
        !wanted(plot.kind) ==> count_of(plots.push(plot), wanted) == count_of(plots, wanted),
{
    assert(plots.push(plot).drop_last() =~= plots);
}

/// What is pending is what is searched for or raised.
pub proof fn law_pending_builds(phase: Phase, build: Build)
    ensures
        phase.pending() == Some(build) <==> phase == Phase::Search(build) || phase is Raise
            && phase->build == build,
{
}

/// The style of a town's name.
pub proof fn law_styles_of_names(kind: TownKind)
    ensures
        kind is City ==> kind.spec_name_style() == NameStyle::Town,
        kind is CliffTown || kind is DesertCity ==> kind.spec_name_style() == NameStyle::Arabic,
        kind is SavannahPit ==> kind.spec_name_style() == NameStyle::Savannah,
        kind is CoastalTown ==> kind.spec_name_style() == NameStyle::Danari,
        kind is Terracotta ==> kind.spec_name_style() == NameStyle::Terracotta,
{
}

/// A search goes on until something is found or all tries are used up.
pub proof fn law_searches_go_on_until_found(area: AreaSearch, plaza: PlazaSearch)
    ensures
        area.found is Some ==> area.spec_is_over(),
        plaza.found is Some ==> plaza.spec_is_over(),
        area.found is None ==> (area.spec_is_over() <==> area.pos is None && area.attempts == 0),
        plaza.found is None ==> (plaza.spec_is_over() <==> plaza.attempts == 0),
{
}

/// What a search that is on tells: a door that was found has its road one step away, and something
/// was looked for only where there are plazas or roads. The place of a plaza lies less than
/// forty-seven tiles from the middle along either axis, is no obstacle, and is far enough from each
/// plaza for a radius of one to three tiles.
pub proof fn law_searches_find_what_is_there(
    area: AreaSearch,
    plaza: PlazaSearch,
    site: Site,
    i: int,
)
    requires
        area.is_on(site),
        plaza.is_on(site),
    ensures
        area.found matches Some((_, door, dir)) ==> {
            let beside = site.tiles.at(door.x + dir.x, door.y + dir.y).kind;
            &&& beside is Plaza || beside is Road || beside is Path
            &&& -1 <= dir.x <= 1 && -1 <= dir.y <= 1
            &&& dir.x == 0 <==> dir.y != 0
        },
        area.found is Some || area.pos is Some ==> site.plazas@.len() > 0 || site.roads@.len() > 0,
        1 <= plaza.radius <= 3,
        plaza.found matches Some(tile) ==> {
            let kind = site.tiles.at(tile.x as int, tile.y as int).kind;
            &&& -46 <= tile.x <= 46 && -46 <= tile.y <= 46
            &&& kind is Empty || kind is Field || kind is Plaza || kind is Path || kind is Road
                || kind is Bridge
            &&& 0 <= i < site.plazas@.len() ==> {
                let root = site.plots@[site.plazas@[i].idx as int].root_tile;
                let d = (root.x - tile.x) * (root.x - tile.x) + (root.y - tile.y) * (root.y
                    - tile.y);
                &&& d >= 80
                &&& plaza.radius >= 2 ==> d >= 152
                &&& plaza.radius == 3 ==> d >= 248
            }
        },
{
    if plaza.found is Some && 0 <= i < site.plazas@.len() {
        let tile = plaza.found->0;
        let root = site.plot_of(site.plazas@[i]).root_tile;
        let d = root.distance_squared_to(tile);
        law_plazas_keep_their_distance(d);
        assert(is_far_enough(d, plaza.radius as int));
        assert(plaza.radius == 1 || plaza.radius == 2 || plaza.radius == 3);
    }
}

/// A castle's gate ends four tiles short of the shorter side, whichever that is.
pub proof fn law_gates_end_before_the_corner(area: Aabr)
    ensures
        Town::gate_end(area) + 4 <= area.max.x - area.min.x,
        Town::gate_end(area) + 4 <= area.max.y - area.min.y,
        Town::gate_end(area) + 4 == area.max.x - area.min.x || Town::gate_end(area) + 4
            == area.max.y - area.min.y,
{
}

/// A search is for a building if it goes by the plan for it, and then looks as often and for as
/// much as that says.
pub proof fn law_searches_go_by_plan(search: AreaSearch, build: Build)
    ensures
        Town::is_search_for(search, build) <==> search.plan == build.plan(search.plan.min_width),
        Town::is_search_for(search, Build::Castle) ==> search.plan.min_width == 16
            && search.plan.min_area == 256,
{
}

/// A plaza can take tiles up to three away from its root along either axis, and no others; near a
/// plaza is what one of them can take.
pub proof fn law_plazas_take_three_tiles_each_way(site: Site, root: Vec2, x: int, y: int, k: int)
    ensures
        can_reach(root, x, y) <==> root.x - 3 <= x && x <= root.x + 3 && root.y - 3 <= y && y
            <= root.y + 3,
        0 <= k < site.plazas@.len() && can_reach(
            site.plots@[site.plazas@[k].idx as int].root_tile,
            x,
            y,
        ) ==> is_near_plaza(site, x, y),
        site.plazas@.len() == 0 ==> !is_near_plaza(site, x, y),
{
    if 0 <= k < site.plazas@.len() {
        assert(site.plot_of(site.plazas@[k]) == site.plots@[site.plazas@[k].idx as int]);
    }
}

/// An area is clear only if none of its tiles belongs to a plot, and all of them are kept.
pub proof fn law_clear_areas_belong_to_no_plot(site: Site, area: Aabr, x: int, y: int)
    requires
        site.is_clear(area),
        area.min.x <= x < area.max.x,
        area.min.y <= y < area.max.y,
    ensures
        site.tiles.at(x, y).plot is None,
        -256 <= x < 272,
        -256 <= y < 272,
{
    assert(area.holds(x, y));
}

/// The settings by which docks are placed and the land is surveyed.
pub proof fn law_settings_of_surveys_and_docks()
    ensures
        AIRSHIP_DOCK_SIZE == 3,
        SURVEY_RADIUS == 96,
        SURVEY_PROBES == 9,
{
}

/// Choosing from nothing draws nothing, and no draw changes the seed.
pub proof fn law_choices_keep_the_seed(rng: SiteRng, len: nat, lo: i32, hi: i32)
    ensures
        rng.pos < 0x10_0000_0000_0000_0000 ==> rng.after_choice(0) == rng,
        rng.after_choice(len).seed == rng.seed,
        rng.after_range(lo, hi).seed == rng.seed,
        rng.at_pos(rng.pos) == rng,
{
}

/// The words that names of barrows are made with, in the order in which they are chosen from.
pub proof fn law_words_for_barrows()
    ensures
        haniwa_words().len() == 10,
        haniwa_words()[0] == "Catacombs",
        haniwa_words()[1] == "Crypt",
        haniwa_words()[2] == "Tomb",
        haniwa_words()[3] == "Gravemound",
        haniwa_words()[4] == "Tunnels",
        haniwa_words()[5] == "Vault",
        haniwa_words()[6] == "Chambers",
        haniwa_words()[7] == "Halls",
        haniwa_words()[8] == "Tumulus",
        haniwa_words()[9] == "Barrow",
{
}

/// The words that names of terracotta towns are made with, in the order in which they are chosen
/// from.
pub proof fn law_words_for_terracotta_towns()
    ensures
        terracotta_words().len() == 8,
        terracotta_words()[0] == "Tombs",
        terracotta_words()[1] == "Necropolis",
        terracotta_words()[2] == "Ruins",
        terracotta_words()[3] == "Mausoleum",
        terracotta_words()[4] == "Cemetery",
        terracotta_words()[5] == "Burial Grounds",
        terracotta_words()[6] == "Remains",
        terracotta_words()[7] == "Temples",
{
}

/// Skipping words twice skips as many as both times together, skipping none stays, and the stream
/// starts over after its last word.
pub proof fn law_skips_come_together(rng: SiteRng, m: int, n: int)
    requires
        0 <= m,
        0 <= n,
        rng.pos < 0x10_0000_0000_0000_0000,
    ensures
        rng.skip(m).skip(n) == rng.skip(m + n),
        rng.skip(0) == rng,
        rng.skip(n).seed == rng.seed,
        rng.pos + n < 0x10_0000_0000_0000_0000 ==> rng.skip(n).pos == rng.pos + n,
        rng.skip(0x10_0000_0000_0000_0000) == rng,
{
    let size: int = 0x10_0000_0000_0000_0000;
    let p = rng.pos as int;
    assert(0 <= (p + m) % size < size);
    assert(0 <= (p + m + n) % size < size);
    vstd::arithmetic::div_mod::lemma_add_mod_noop(p + m, n, size);
    vstd::arithmetic::div_mod::lemma_add_mod_noop((p + m) % size, n, size);
    vstd::arithmetic::div_mod::lemma_mod_twice(p + m, size);
    vstd::arithmetic::div_mod::lemma_mod_add_multiples_vanish(p, size);
    assert(p % size == p);
    assert(((p + m) % size + n) % size == (p + m + n) % size);
    assert(word_after(rng.pos, m) == (p + m) % size);
    assert(word_after(word_after(rng.pos, m), n) == (p + m + n) % size);
    assert(word_after(rng.pos, m + n) == (p + (m + n)) % size);
}

/// A child of a generator starts at the first word of its own stream. Each byte of its seed is the
/// lowest of one of the next thirty-two words of its parent, in their order.
pub proof fn law_children_are_seeded_word_by_word(parent: SiteRng, child: SiteRng, i: int)
    requires
        child.is_child(parent),
        0 <= i < 32,
    ensures
        child.pos == 0,
        child.seed@[i] == parent.skip(i).word() % 256,
{
}

} // verus!
