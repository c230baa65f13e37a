//! Layout of settlements and landmarks on a grid of tiles.

pub mod bridge;
pub mod castle;
pub mod clear;
pub mod coords;
pub mod generate;
pub mod geom;
pub mod land_laws;
pub mod laws;
pub mod layout_laws;
pub mod names;
pub mod obstacles;
pub mod plaza;
pub mod plot;
pub mod render;
pub mod rng;
pub mod roads;
pub mod rules;
pub mod search;
pub mod site;
pub mod tile;
pub mod town;
pub mod town_laws;
pub mod view_laws;

pub use geom::{Aabr, Dir, Vec2};
pub use plot::{Id, Plaza, Plot, PlotKind};
pub use rng::SiteRng;
pub use site::{aabr_tiles, Site};
pub use tile::{HazardKind, KeepKind, RoofKind, Tile, TileGrid, TileKind};
