//! A planet as a grid of tiles that evolves day by day: terrain, structures,
//! a resource ledger, orbital and star-system facilities and the air as a
//! whole. Every operation carries a contract over a mathematical model of
//! the state it changes.
//!
//! All quantities are whole numbers: temperatures in millikelvin, heights
//! in metres, gas masses in megatonnes. What needs floating point, the
//! heat of the day and the chemistry of the air, is left to the host, which
//! reads and writes the planet through the operations of this library.
//!
//! - [`grid`]: the array of tiles and its coordinates, which wrap around
//!   the planet from east to west.
//! - [`tile`], [`defs`]: tiles, the kinds of things, and the catalogs that
//!   describe them.
//! - [`resources`], [`registry`], [`atmo`], [`player`]: the ledger, the
//!   counts of facilities, the air and the player's unlocked structures.
//! - [`placement`], [`footprints`]: what placing and demolishing structures
//!   do to the tiles, and the invariants they keep.
//! - [`planet`]: the planet and what the host may do to it.
//! - [`buildings`]: one day of everything that was built.
//! - [`action`]: what a click on a tile does.
//! - [`fnv_map`]: the hash maps that hold things by the codes of their
//!   kinds; the only module whose claims are not proved.

pub mod action;
pub mod atmo;
pub mod buildings;
pub mod coords;
pub mod defs;
pub mod error;
pub mod fnv_map;
pub mod footprints;
pub mod grid;
pub mod placement;
pub mod planet;
pub mod player;
pub mod registry;
pub mod resources;
pub mod tile;

pub use crate::action::{cursor_action, ActionOutcome, CursorAction, CursorMode};
pub use crate::atmo::{Atmosphere, GasKind};
pub use crate::coords::Coords;
pub use crate::defs::{
    Biome, BuildingAttrs, OrbitalBuildingKind, Params, PlanetBasics, ResourceKind,
    StarSystemBuildingKind, StartParams, Structure, StructureAttrs, StructureKind,
};
pub use crate::error::PlanetError;
pub use crate::grid::{Array2d, Direction};
pub use crate::planet::Planet;
pub use crate::player::Player;
pub use crate::registry::{Building, BuildingCommand};
pub use crate::resources::{AddOutcome, Resources};
pub use crate::tile::Tile;
