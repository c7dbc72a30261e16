//! What a click on a tile does, given the tool that the cursor carries.

use crate::coords::Coords;
use crate::defs::{Biome, Params, Structure, StructureKind};
use crate::error::PlanetError;
use crate::fnv_map::map_get;
use crate::grid::{cell_index, in_grid};
use crate::placement::{anchor_at, demolished_on, place_outcome, placed_on};
use crate::planet::Planet;
use crate::tile::Tile;
use vstd::prelude::*;

verus! {

/// The tool that the cursor carries.
#[derive(Clone, Copy, Debug, PartialEq, Eq, Structural)]
pub enum CursorMode {
    Normal,
    Build(StructureKind),
    Demolition,
    EditBiome(Biome),
}

/// A click on the tile `coords`, or a drag over it.
#[derive(Clone, Copy, Debug, PartialEq, Eq, Structural)]
pub struct CursorAction {
    pub coords: Coords,
    pub drag: bool,
}

/// What a click came to.
#[derive(Clone, Copy, Debug, PartialEq, Eq, Structural)]
pub enum ActionOutcome {
    /// The tool does nothing, or there was nothing to do.
    Nothing,
    BiomeEdited,
    Placed,
    Demolished,
    /// The planet refused, and is as it was.
    Refused(PlanetError),
}

/// The structure that building `kind` puts on the anchor tile; nothing
/// for the kind that chooses nothing.
pub open spec fn structure_of(kind: StructureKind) -> Option<Structure> {
    match kind {
        StructureKind::Empty => None,
        StructureKind::OxygenGenerator => Some(Structure::OxygenGenerator),
        StructureKind::FertilizationPlant => Some(Structure::FertilizationPlant),
        StructureKind::Heater => Some(Structure::Heater),
    }
}

/// The structure that building `kind` puts on the anchor tile. It is of
/// that kind.
pub fn new_structure(kind: StructureKind) -> (s: Option<Structure>)
    ensures
        s == structure_of(kind),
        kind != StructureKind::Empty ==> s is Some && s->Some_0.spec_kind() == Some(kind),
{
    match kind {
        StructureKind::Empty => None,
        StructureKind::OxygenGenerator => Some(Structure::OxygenGenerator),
        StructureKind::FertilizationPlant => Some(Structure::FertilizationPlant),
        StructureKind::Heater => Some(Structure::Heater),
    }
}

/// What a click with the tool `mode` on the tile `coords` comes to, for
/// tiles `tiles` of a `w` by `h` grid.
pub open spec fn outcome_of(
    tiles: Seq<Tile>,
    w: nat,
    h: nat,
    params: &Params,
    mode: CursorMode,
    coords: Coords,
) -> ActionOutcome {
    match mode {
        CursorMode::Normal => ActionOutcome::Nothing,
        CursorMode::EditBiome(biome) => if in_grid(coords, w, h) {
            ActionOutcome::BiomeEdited
        } else {
            ActionOutcome::Refused(PlanetError::OutOfBounds)
        },
        CursorMode::Build(kind) => match structure_of(kind) {
            None => ActionOutcome::Nothing,
            Some(structure) => if !params.structures@.contains_key(kind.spec_code()) {
                ActionOutcome::Refused(PlanetError::UnknownKind)
            } else {
                match place_outcome(
                    tiles,
                    w,
                    h,
                    coords,
                    params.structures@[kind.spec_code()].size as nat,
                    structure,
                ) {
                    Ok(_) => ActionOutcome::Placed,
                    Err(e) => ActionOutcome::Refused(e),
                }
            },
        },
        CursorMode::Demolition => if !in_grid(coords, w, h) {
            ActionOutcome::Refused(PlanetError::OutOfBounds)
        } else if tiles[cell_index(coords, w)].structure == Structure::Empty {
            ActionOutcome::Nothing
        } else {
            ActionOutcome::Demolished
        },
    }
}

/// The tiles after a click that came to `outcome`.
pub open spec fn tiles_after(
    tiles: Seq<Tile>,
    w: nat,
    params: &Params,
    mode: CursorMode,
    coords: Coords,
    outcome: ActionOutcome,
) -> Seq<Tile> {
    match (outcome, mode) {
        (ActionOutcome::BiomeEdited, CursorMode::EditBiome(biome)) => tiles.update(
            cell_index(coords, w),
            tiles[cell_index(coords, w)].spec_with_biome(biome),
        ),
        (ActionOutcome::Placed, CursorMode::Build(kind)) => placed_on(
            tiles,
            w,
            coords,
            params.structures@[kind.spec_code()].size as nat,
            structure_of(kind)->Some_0,
        ),
        (ActionOutcome::Demolished, CursorMode::Demolition) => demolished_on(
            tiles,
            w,
            anchor_at(tiles, w, coords),
        ),
        _ => tiles,
    }
}

impl ActionOutcome {
    /// Whether the host should draw the map anew.
    pub fn redraw(&self) -> (b: bool)
        ensures
            b == (*self != ActionOutcome::Nothing),
    {
        match self {
            ActionOutcome::Nothing => false,
            _ => true,
        }
    }
}

/// Carries out a click: the biome tool changes the terrain of the tile,
/// the build tool places a structure of its kind, of the size that the
/// catalog gives, with its anchor on the tile, the demolition tool takes
/// down what stands on the tile, and the plain cursor does nothing. Only
/// the tiles change, and they only as the outcome says.
pub fn cursor_action(
    planet: &mut Planet,
    params: &Params,
    mode: CursorMode,
    action: CursorAction,
) -> (outcome: ActionOutcome)
    requires
        old(planet).wf(),
    ensures
        final(planet).wf(),
        old(planet).same_but_tiles(final(planet)),
        outcome == outcome_of(
            old(planet).map@,
            old(planet).map.width(),
            old(planet).map.height(),
            params,
            mode,
            action.coords,
        ),
        final(planet).map@ == tiles_after(
            old(planet).map@,
            old(planet).map.width(),
            params,
            mode,
            action.coords,
            outcome,
        ),
        old(planet).footprints_wf(params.structures@) ==> final(planet).footprints_wf(
            params.structures@,
        ),
{
    let coords = action.coords;
    match mode {
        CursorMode::Normal => ActionOutcome::Nothing,
        CursorMode::EditBiome(biome) => match planet.edit_biome(coords, biome) {
            Ok(_) => ActionOutcome::BiomeEdited,
            Err(e) => ActionOutcome::Refused(e),
        },
        CursorMode::Build(kind) => match new_structure(kind) {
            None => ActionOutcome::Nothing,
            Some(structure) => match map_get(&params.structures, kind.code()) {
                None => ActionOutcome::Refused(PlanetError::UnknownKind),
                Some(attrs) => match planet.place(coords, attrs.size, structure) {
                    Ok(_) => ActionOutcome::Placed,
                    Err(e) => ActionOutcome::Refused(e),
                },
            },
        },
        CursorMode::Demolition => match planet.demolish(coords) {
            Ok(true) => ActionOutcome::Demolished,
            Ok(false) => ActionOutcome::Nothing,
            Err(e) => ActionOutcome::Refused(e),
        },
    }
}

} // verus!
