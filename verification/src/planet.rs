//! The planet: its tiles, ledger, air and facilities, and what the host
//! may do to them.

use crate::atmo::{Atmosphere, GasKind};
use crate::buildings::{ledger_after_day, oxygen_released, tiles_after_day};
use crate::coords::Coords;
use crate::defs::{
    Biome, OrbitalBuildingKind, Params, PlanetBasics, ResourceKind, StarSystemBuildingKind,
    StartParams, Structure, StructureAttrs, StructureKind,
};
use crate::error::PlanetError;
use crate::fnv_map::map_get;
use crate::footprints::{
    anchor_covers, footprints_sound, keeps_declared_footprints, keeps_footprints,
    lemma_anchor_covers, lemma_demolish_keeps_sound, lemma_place_keeps_sound,
    lemma_same_structures_keep_sound, owned_by,
};
use crate::grid::{
    canonical, cell_coords, cell_index, in_grid, lemma_cell_coords_of_index, shift_column,
    spec_grid_fits, wrap, wrap_column, Array2d,
};
use crate::placement::{
    anchor_at, anchor_of, anchored_at, covers, demolished_first, demolished_on, fits,
    holds_first, is_free, is_part, lemma_anchor_canonical, lemma_anchored_at,
    lemma_demolish_keeps_markers, lemma_demolish_nothing, lemma_holds_first_end,
    lemma_holds_first_row, lemma_holds_first_start, lemma_holds_first_step,
    lemma_place_keeps_markers, lemma_placed_first_end, lemma_placed_first_row,
    lemma_placed_first_start, lemma_placed_first_step, lemma_same_structures_keep_markers,
    markers_resolve, place_outcome, placeable_on, placed_first, placed_on,
};
use crate::player::Player;
use crate::registry::{
    building_at, building_of, registry_check, registry_command, registry_new, registry_started,
    registry_wf, Building, BuildingCommand,
};
use crate::resources::{stock_at, Ledger, Resources};
use crate::tile::{Tile, TEMP_DEFAULT, TEMP_MAX};
use fnv::FnvHashMap;
use vstd::prelude::*;

verus! {

/// A planet.
#[derive(Clone, Debug)]
pub struct Planet {
    /// The days that have passed.
    pub days: u64,
    pub basics: PlanetBasics,
    pub player: Player,
    pub res: Resources,
    pub map: Array2d<Tile>,
    pub atmo: Atmosphere,
    /// The facilities in orbit, by the code of their kind.
    pub orbit: FnvHashMap<u32, Building>,
    /// The facilities in the star system, by the code of their kind.
    pub star_system: FnvHashMap<u32, Building>,
}

impl Planet {
    /// The grid is whole, every tile has a temperature in range, every part
    /// of a structure points to its anchor, and no more facilities run than
    /// were built.
    pub open spec fn wf(&self) -> bool {
        &&& self.map.wf()
        &&& forall|i: int| 0 <= i < self.map@.len() ==> (#[trigger] self.map@[i]).wf()
        &&& markers_resolve(self.map@, self.map.width(), self.map.height())
        &&& registry_wf(self.orbit@, OrbitalBuildingKind::spec_all().len() as u32)
        &&& registry_wf(self.star_system@, StarSystemBuildingKind::spec_all().len() as u32)
    }

    /// The footprints are sound for the sides that `catalog` gives the
    /// kinds of structure: every part of a structure lies in the footprint
    /// of its anchor, and every footprint lies on the grid and is complete.
    pub open spec fn footprints_wf(&self, catalog: Map<u32, StructureAttrs>) -> bool {
        footprints_sound(self.map@, self.map.width(), self.map.height(), catalog)
    }

    /// Whether `other` differs from this planet in its tiles at most.
    pub open spec fn same_but_tiles(&self, other: &Planet) -> bool {
        &&& other.days == self.days
        &&& other.basics == self.basics
        &&& other.player == self.player
        &&& other.res == self.res
        &&& other.atmo == self.atmo
        &&& other.orbit == self.orbit
        &&& other.star_system == self.star_system
        &&& other.map.width() == self.map.width()
        &&& other.map.height() == self.map.height()
    }

    /// The facilities of `kind` in orbit.
    pub open spec fn spec_orbital(&self, kind: OrbitalBuildingKind) -> Building {
        building_at(self.orbit@, kind.spec_code())
    }

    /// The facilities of `kind` in the star system.
    pub open spec fn spec_star_system(&self, kind: StarSystemBuildingKind) -> Building {
        building_at(self.star_system@, kind.spec_code())
    }

    /// Whether a structure of side `size` can be placed with its anchor at
    /// `coords`.
    pub open spec fn spec_placeable(&self, coords: Coords, size: u32) -> bool {
        placeable_on(self.map@, self.map.width(), self.map.height(), coords, size as nat)
    }

    /// A planet of `w` by `h` tiles of bare rock on day 0, with the stock,
    /// the air and the facilities that `start_params` gives, all facilities
    /// running, and a player who may build oxygen generators, fertilization
    /// plants and heaters.
    pub fn new(w: u32, h: u32, start_params: &StartParams) -> (planet: Planet)
        requires
            spec_grid_fits(w, h),
        ensures
            planet.wf(),
            planet.days == 0,
            planet.basics == start_params.basics,
            planet.player@ == Set::<StructureKind>::empty().insert(
                StructureKind::OxygenGenerator,
            ).insert(StructureKind::FertilizationPlant).insert(StructureKind::Heater),
            planet.res@ == (Ledger {
                stock: Map::total(
                    |k: ResourceKind| stock_at(start_params.resources@, k.spec_code()),
                ),
                diff: Map::total(|k: ResourceKind| 0int),
            }),
            planet.map.width() == w,
            planet.map.height() == h,
            planet.map@ == Seq::new(
                (w * h) as nat,
                |i: int|
                    Tile {
                        biome: Biome::Rock,
                        structure: Structure::Empty,
                        height: 0,
                        biomass: 0,
                        temp: TEMP_DEFAULT,
                    },
            ),
            planet.atmo == start_params.atmo,
            registry_started(
                planet.orbit@,
                OrbitalBuildingKind::spec_all().len() as u32,
                start_params.orbital_buildings@,
            ),
            registry_started(
                planet.star_system@,
                StarSystemBuildingKind::spec_all().len() as u32,
                start_params.star_system_buildings@,
            ),
            forall|catalog: Map<u32, StructureAttrs>| #[trigger] planet.footprints_wf(catalog),
    {
        let map = Array2d::new(w, h, Tile::default());
        let orbital_kinds = OrbitalBuildingKind::all();
        let star_system_kinds = StarSystemBuildingKind::all();
        let mut planet = Planet {
            days: 0,
            basics: start_params.basics,
            player: Player::default(),
            res: Resources::new(start_params),
            map,
            atmo: Atmosphere::from_params(start_params),
            orbit: registry_new(orbital_kinds.len() as u32, &start_params.orbital_buildings),
            star_system: registry_new(
                star_system_kinds.len() as u32,
                &start_params.star_system_buildings,
            ),
        };
        planet.player.unlock(StructureKind::OxygenGenerator);
        planet.player.unlock(StructureKind::FertilizationPlant);
        planet.player.unlock(StructureKind::Heater);
        planet
    }

    /// Whether the planet is well formed: whether the grid is whole, every
    /// tile has a temperature in range, every part of a structure points
    /// to its anchor, and no more facilities run than were built.
    pub fn check(&self) -> (b: bool)
        ensures
            b == self.wf(),
    {
        if !self.map.check() {
            return false;
        }
        if !registry_check(&self.orbit, OrbitalBuildingKind::all().len() as u32) {
            return false;
        }
        if !registry_check(&self.star_system, StarSystemBuildingKind::all().len() as u32) {
            return false;
        }
        let ghost (w, h) = (self.map.width(), self.map.height());
        let n: usize = self.map.len();
        let mut i: usize = 0;
        while i < n
            invariant
                i <= n,
                n == self.map@.len(),
                self.map.wf(),
                w == self.map.width(),
                h == self.map.height(),
                forall|k: int| 0 <= k < i ==> (#[trigger] self.map@[k]).wf(),
                forall|k: int|
                    0 <= k < i ==> match (#[trigger] self.map@[k]).structure {
                        Structure::Occupied { by } => canonical(by, w, h) && anchored_at(
                            self.map@,
                            w,
                            by,
                        ),
                        _ => true,
                    },
            decreases n - i,
        {
            let tile = self.map.cell(i);
            if tile.temp < 1 || tile.temp > TEMP_MAX {
                assert(!self.map@[i as int].wf());
                return false;
            }
            match tile.structure {
                Structure::Occupied { by } => {
                    proof {
                        lemma_anchored_at(self.map@, w, by);
                    }
                    if !self.map.is_canonical(by) {
                        return false;
                    }
                    let anchor = self.map.cell(self.map.canonical_index(by));
                    if !anchor.structure.is_building() {
                        return false;
                    }
                },
                _ => {},
            }
            i = i + 1;
        }
        true
    }

    /// Whether the structure anchored at position `i`, if its side is
    /// `side`, lies on the grid with its whole footprint, every tile of
    /// which but the anchor is a part of it.
    fn owns_footprint(&self, i: usize, side: u32) -> (b: bool)
        requires
            self.map.wf(),
            i < self.map@.len(),
        ensures
            b == (fits(
                cell_coords(i as int, self.map.width()),
                side as nat,
                self.map.width(),
                self.map.height(),
            ) && forall|j: int|
                0 <= j < self.map@.len() && j != i && covers(
                    cell_coords(i as int, self.map.width()),
                    side as nat,
                    cell_coords(j, self.map.width()),
                    self.map.width(),
                ) ==> (#[trigger] self.map@[j]).structure == (Structure::Occupied {
                    by: cell_coords(i as int, self.map.width()),
                })),
    {
        let (w, h) = self.map.size();
        let anchor = self.map.coords_of(i);
        if side < 1 || side > w || anchor.1 as i64 + side as i64 > h as i64 {
            return false;
        }
        let ax: u32 = anchor.0 as u32;
        let ghost tiles = self.map@;
        let ghost part = is_part(tiles, w as nat, anchor);
        proof {
            crate::grid::lemma_wrap_small(anchor.0 as int, w as int);
            lemma_holds_first_start(tiles.len(), w as nat, anchor, side as nat, part);
        }
        let mut dy: u32 = 0;
        while dy < side
            invariant
                self.map.wf(),
                w == self.map.width(),
                h == self.map.height(),
                tiles == self.map@,
                i < tiles.len(),
                anchor == cell_coords(i as int, w as nat),
                cell_index(anchor, w as nat) == i,
                anchor_of(anchor, w as nat) == anchor,
                part == is_part(tiles, w as nat, anchor),
                fits(anchor, side as nat, w as nat, h as nat),
                ax == anchor.0,
                ax < w,
                dy <= side,
                holds_first(tiles.len(), w as nat, anchor, side as nat, dy as int, 0, part),
            decreases side - dy,
        {
            let mut dx: u32 = 0;
            while dx < side
                invariant
                    self.map.wf(),
                    w == self.map.width(),
                    h == self.map.height(),
                    tiles == self.map@,
                    i < tiles.len(),
                    anchor == cell_coords(i as int, w as nat),
                    cell_index(anchor, w as nat) == i,
                    anchor_of(anchor, w as nat) == anchor,
                    part == is_part(tiles, w as nat, anchor),
                    fits(anchor, side as nat, w as nat, h as nat),
                    ax == anchor.0,
                    ax < w,
                    dy < side,
                    dx <= side,
                    holds_first(
                        tiles.len(),
                        w as nat,
                        anchor,
                        side as nat,
                        dy as int,
                        dx as int,
                        part,
                    ),
                decreases side - dx,
            {
                let x: u32 = shift_column(ax, dx, w);
                let p = Coords(x as i32, anchor.1 + dy as i32);
                proof {
                    lemma_holds_first_step(
                        tiles.len(),
                        w as nat,
                        h as nat,
                        anchor,
                        side as nat,
                        dy as int,
                        dx as int,
                        p,
                        part,
                    );
                }
                let j: usize = self.map.canonical_index(p);
                let tile = self.map.cell(j);
                if !(dx == 0 && dy == 0) && tile.structure != (Structure::Occupied { by: anchor }) {
                    assert(j != i);
                    assert(tiles[j as int].structure != Structure::Occupied { by: anchor });
                    return false;
                }
                assert(part(j as int));
                dx = dx + 1;
            }
            proof {
                lemma_holds_first_row(tiles.len(), w as nat, anchor, side as nat, dy as int, part);
            }
            dy = dy + 1;
        }
        proof {
            lemma_holds_first_end(tiles.len(), w as nat, anchor, side as nat, part);
            assert forall|j: int|
                0 <= j < tiles.len() && j != i && covers(
                    anchor,
                    side as nat,
                    cell_coords(j, w as nat),
                    w as nat,
                ) implies (#[trigger] tiles[j]).structure == (Structure::Occupied {
                by: anchor,
            }) by {
                assert(part(j));
                crate::grid::lemma_cell_coords_inverse(j, w as nat, h as nat);
            }
        }
        true
    }

    /// Whether the footprints are sound for the sides that the catalog
    /// gives the kinds of structure: whether every part of a structure
    /// lies in the footprint of its anchor, and every footprint lies on
    /// the grid and is complete.
    pub fn check_footprints(&self, params: &Params) -> (b: bool)
        requires
            self.map.wf(),
        ensures
            b == self.footprints_wf(params.structures@),
    {
        let ghost (w, h) = (self.map.width(), self.map.height());
        let ghost catalog = params.structures@;
        let (width, _) = self.map.size();
        let n: usize = self.map.len();
        let mut i: usize = 0;
        while i < n
            invariant
                i <= n,
                n == self.map@.len(),
                self.map.wf(),
                w == self.map.width(),
                h == self.map.height(),
                width == w,
                catalog == params.structures@,
                forall|k: int|
                    0 <= k < i ==> match (#[trigger] self.map@[k]).structure {
                        Structure::Occupied { by } => canonical(by, w, h) && anchor_covers(
                            self.map@,
                            w,
                            catalog,
                            by,
                            cell_coords(k, w),
                        ),
                        _ => true,
                    },
                forall|k: int, j: int|
                    0 <= k < i && 0 <= j < n ==> #[trigger] owned_by(
                        self.map@,
                        w,
                        h,
                        catalog,
                        k,
                        j,
                    ),
            decreases n - i,
        {
            let tile = self.map.cell(i);
            match tile.structure {
                Structure::Occupied { by } => {
                    let p = self.map.coords_of(i);
                    proof {
                        lemma_anchor_covers(self.map@, w, catalog, by, p);
                    }
                    if !self.map.is_canonical(by) {
                        return false;
                    }
                    let anchor = self.map.cell(self.map.canonical_index(by));
                    let size: u32 = match anchor.structure.kind() {
                        Some(kind) => match map_get(&params.structures, kind.code()) {
                            Some(attrs) => attrs.size,
                            None => {
                                return false;
                            },
                        },
                        None => {
                            return false;
                        },
                    };
                    if p.1 < by.1 || (p.1 - by.1) as u32 >= size {
                        return false;
                    }
                    if wrap_column(p.0 - by.0, width) >= size {
                        return false;
                    }
                },
                _ => {
                    match tile.structure.kind() {
                        Some(kind) => match map_get(&params.structures, kind.code()) {
                            Some(attrs) => {
                                if !self.owns_footprint(i, attrs.size) {
                                    proof {
                                        if fits(cell_coords(i as int, w), attrs.size as nat, w, h) {
                                            let j = choose|j: int|
                                                0 <= j < self.map@.len() && j != i && covers(
                                                    cell_coords(i as int, w),
                                                    attrs.size as nat,
                                                    cell_coords(j, w),
                                                    w,
                                                ) && (#[trigger] self.map@[j]).structure != (
                                                Structure::Occupied {
                                                    by: cell_coords(i as int, w),
                                                });
                                            assert(!owned_by(
                                                self.map@,
                                                w,
                                                h,
                                                catalog,
                                                i as int,
                                                j,
                                            ));
                                        } else {
                                            assert(!owned_by(
                                                self.map@,
                                                w,
                                                h,
                                                catalog,
                                                i as int,
                                                i as int,
                                            ));
                                        }
                                    }
                                    return false;
                                }
                            },
                            None => {},
                        },
                        None => {},
                    }
                },
            }
            i = i + 1;
        }
        true
    }

    /// One day passes: the day counter goes up by one, the ledger forgets
    /// the day before, and everything that was built runs for a day, the
    /// facilities in orbit first, then those of the star system, then the
    /// structures on the surface.
    pub fn advance(&mut self, params: &Params)
        requires
            old(self).wf(),
            params.wf(),
            old(self).days < u64::MAX,
        ensures
            final(self).wf(),
            final(self).days == old(self).days + 1,
            final(self).basics == old(self).basics,
            final(self).player == old(self).player,
            final(self).orbit == old(self).orbit,
            final(self).star_system == old(self).star_system,
            final(self).map.width() == old(self).map.width(),
            final(self).map.height() == old(self).map.height(),
            final(self).res@ == ledger_after_day(
                old(self).res@.reset_diffs(),
                old(self).orbit@,
                old(self).star_system@,
                old(self).map@,
                params,
            ),
            final(self).map@ == tiles_after_day(old(self).map@, params.structures@),
            final(self).atmo == old(self).atmo.spec_add(
                GasKind::Oxygen,
                oxygen_released(old(self).map@, params.structures@, old(self).map@.len()),
            ),
            keeps_footprints(
                old(self).map@,
                final(self).map@,
                old(self).map.width(),
                old(self).map.height(),
            ),
    {
        self.days = self.days + 1;
        self.res.reset_diffs();
        crate::buildings::advance(self, params);
    }

    /// Carries out `command` on the facilities of `kind` in orbit; all
    /// else stays as it is.
    pub fn command_orbital(&mut self, kind: OrbitalBuildingKind, command: BuildingCommand)
        requires
            old(self).wf(),
        ensures
            final(self).wf(),
            final(self).orbit@ == old(self).orbit@.insert(
                kind.spec_code(),
                old(self).spec_orbital(kind).spec_after(command),
            ),
            final(self).spec_orbital(kind) == old(self).spec_orbital(kind).spec_after(command),
            final(self).star_system == old(self).star_system,
            final(self).days == old(self).days,
            final(self).basics == old(self).basics,
            final(self).player == old(self).player,
            final(self).res == old(self).res,
            final(self).atmo == old(self).atmo,
            final(self).map == old(self).map,
    {
        registry_command(&mut self.orbit, kind.code(), command);
    }

    /// Carries out `command` on the facilities of `kind` in the star
    /// system; all else stays as it is.
    pub fn command_star_system(
        &mut self,
        kind: StarSystemBuildingKind,
        command: BuildingCommand,
    )
        requires
            old(self).wf(),
        ensures
            final(self).wf(),
            final(self).star_system@ == old(self).star_system@.insert(
                kind.spec_code(),
                old(self).spec_star_system(kind).spec_after(command),
            ),
            final(self).spec_star_system(kind) == old(self).spec_star_system(kind).spec_after(
                command,
            ),
            final(self).orbit == old(self).orbit,
            final(self).days == old(self).days,
            final(self).basics == old(self).basics,
            final(self).player == old(self).player,
            final(self).res == old(self).res,
            final(self).atmo == old(self).atmo,
            final(self).map == old(self).map,
    {
        registry_command(&mut self.star_system, kind.code(), command);
    }

    /// The tile that `coords` names.
    pub fn tile(&self, coords: Coords) -> (r: Result<Tile, PlanetError>)
        requires
            self.wf(),
        ensures
            in_grid(coords, self.map.width(), self.map.height()) ==> r == Ok::<
                Tile,
                PlanetError,
            >(self.map.at(coords)),
            !in_grid(coords, self.map.width(), self.map.height()) ==> r == Err::<
                Tile,
                PlanetError,
            >(PlanetError::OutOfBounds),
    {
        self.map.get(coords)
    }

    /// The structure that stands on the tile that `coords` names: what is
    /// anchored on the tile, or, where the tile is a part of a structure,
    /// what is anchored on the anchor of that structure; `Empty` where the
    /// tile is free.
    pub fn structure_at(&self, coords: Coords) -> (r: Result<Structure, PlanetError>)
        requires
            self.wf(),
        ensures
            in_grid(coords, self.map.width(), self.map.height()) ==> r == Ok::<
                Structure,
                PlanetError,
            >(
                self.map@[cell_index(
                    anchor_at(self.map@, self.map.width(), coords),
                    self.map.width(),
                )].structure,
            ) && !(r->Ok_0 is Occupied),
            !in_grid(coords, self.map.width(), self.map.height()) ==> r == Err::<
                Structure,
                PlanetError,
            >(PlanetError::OutOfBounds),
    {
        match self.map.get(coords) {
            Ok(tile) => {
                proof {
                    lemma_anchor_canonical(coords, self.map.width(), self.map.height());
                    crate::grid::lemma_cell_index_bounds(
                        coords,
                        self.map.width(),
                        self.map.height(),
                    );
                }
                match tile.structure {
                    Structure::Occupied { by } => {
                        proof {
                            lemma_anchored_at(self.map@, self.map.width(), by);
                        }
                        Ok(self.map.cell(self.map.canonical_index(by)).structure)
                    },
                    other => Ok(other),
                }
            },
            Err(e) => Err(e),
        }
    }

    /// The facilities of `kind` in orbit.
    pub fn orbital(&self, kind: OrbitalBuildingKind) -> (b: Building)
        ensures
            b == self.spec_orbital(kind),
    {
        building_of(&self.orbit, kind.code())
    }

    /// The facilities of `kind` in the star system.
    pub fn star_system_building(&self, kind: StarSystemBuildingKind) -> (b: Building)
        ensures
            b == self.spec_star_system(kind),
    {
        building_of(&self.star_system, kind.code())
    }

    /// Whether `tile` is a tile in range that holds what `before` held.
    pub open spec fn edits(before: Tile, tile: Tile) -> bool {
        tile.wf() && tile.structure == before.structure
    }

    /// Puts `tile` in the place of the tile that `coords` names, where it
    /// holds the same structure; fails with `OutOfBounds`, changing
    /// nothing, where `coords` names no tile.
    fn put_tile(&mut self, coords: Coords, tile: Tile) -> (r: Result<(), PlanetError>)
        requires
            old(self).wf(),
            in_grid(coords, old(self).map.width(), old(self).map.height()) ==> Self::edits(
                old(self).map.at(coords),
                tile,
            ),
        ensures
            final(self).wf(),
            old(self).same_but_tiles(final(self)),
            keeps_footprints(
                old(self).map@,
                final(self).map@,
                old(self).map.width(),
                old(self).map.height(),
            ),
            in_grid(coords, old(self).map.width(), old(self).map.height()) ==> r == Ok::<
                (),
                PlanetError,
            >(()) && final(self).map@ == old(self).map@.update(
                cell_index(coords, old(self).map.width()),
                tile,
            ),
            !in_grid(coords, old(self).map.width(), old(self).map.height()) ==> r == Err::<
                (),
                PlanetError,
            >(PlanetError::OutOfBounds) && final(self).map@ == old(self).map@,
    {
        match self.map.index_of(coords) {
            Ok(i) => {
                self.map.set_cell(i, tile);
                proof {
                    let (w, h) = (self.map.width(), self.map.height());
                    lemma_same_structures_keep_markers(old(self).map@, self.map@, w, h);
                    lemma_same_structures_keep_sound(old(self).map@, self.map@, w, h);
                }
                Ok(())
            },
            Err(e) => Err(e),
        }
    }

    /// Changes the terrain of the tile that `coords` names and nothing
    /// else; fails with `OutOfBounds`, changing nothing, where `coords`
    /// names no tile.
    pub fn edit_biome(&mut self, coords: Coords, biome: Biome) -> (r: Result<(), PlanetError>)
        requires
            old(self).wf(),
        ensures
            final(self).wf(),
            old(self).same_but_tiles(final(self)),
            keeps_footprints(
                old(self).map@,
                final(self).map@,
                old(self).map.width(),
                old(self).map.height(),
            ),
            in_grid(coords, old(self).map.width(), old(self).map.height()) ==> r == Ok::<
                (),
                PlanetError,
            >(()) && final(self).map@ == old(self).map@.update(
                cell_index(coords, old(self).map.width()),
                old(self).map.at(coords).spec_with_biome(biome),
            ),
            !in_grid(coords, old(self).map.width(), old(self).map.height()) ==> r == Err::<
                (),
                PlanetError,
            >(PlanetError::OutOfBounds) && final(self).map@ == old(self).map@,
    {
        match self.map.get(coords) {
            Ok(tile) => {
                proof {
                    crate::grid::lemma_cell_index_bounds(
                        coords,
                        self.map.width(),
                        self.map.height(),
                    );
                }
                self.put_tile(coords, tile.with_biome(biome))
            },
            Err(e) => Err(e),
        }
    }

    /// Sets the temperature, in millikelvin, of the tile that `coords`
    /// names, to `temp` or to the nearest temperature that a tile can
    /// have, and changes nothing else; fails with `OutOfBounds`, changing
    /// nothing, where `coords` names no tile.
    pub fn set_temp(&mut self, coords: Coords, temp: u32) -> (r: Result<(), PlanetError>)
        requires
            old(self).wf(),
        ensures
            final(self).wf(),
            old(self).same_but_tiles(final(self)),
            keeps_footprints(
                old(self).map@,
                final(self).map@,
                old(self).map.width(),
                old(self).map.height(),
            ),
            in_grid(coords, old(self).map.width(), old(self).map.height()) ==> r == Ok::<
                (),
                PlanetError,
            >(()) && final(self).map@ == old(self).map@.update(
                cell_index(coords, old(self).map.width()),
                old(self).map.at(coords).spec_with_temp(temp),
            ),
            !in_grid(coords, old(self).map.width(), old(self).map.height()) ==> r == Err::<
                (),
                PlanetError,
            >(PlanetError::OutOfBounds) && final(self).map@ == old(self).map@,
    {
        match self.map.get(coords) {
            Ok(tile) => self.put_tile(coords, tile.with_temp(temp)),
            Err(e) => Err(e),
        }
    }

    /// Sets the biomass of the tile that `coords` names and changes
    /// nothing else; fails with `OutOfBounds`, changing nothing, where
    /// `coords` names no tile.
    pub fn set_biomass(&mut self, coords: Coords, biomass: u32) -> (r: Result<(), PlanetError>)
        requires
            old(self).wf(),
        ensures
            final(self).wf(),
            old(self).same_but_tiles(final(self)),
            keeps_footprints(
                old(self).map@,
                final(self).map@,
                old(self).map.width(),
                old(self).map.height(),
            ),
            in_grid(coords, old(self).map.width(), old(self).map.height()) ==> r == Ok::<
                (),
                PlanetError,
            >(()) && final(self).map@ == old(self).map@.update(
                cell_index(coords, old(self).map.width()),
                old(self).map.at(coords).spec_with_biomass(biomass),
            ),
            !in_grid(coords, old(self).map.width(), old(self).map.height()) ==> r == Err::<
                (),
                PlanetError,
            >(PlanetError::OutOfBounds) && final(self).map@ == old(self).map@,
    {
        match self.map.get(coords) {
            Ok(tile) => {
                proof {
                    crate::grid::lemma_cell_index_bounds(
                        coords,
                        self.map.width(),
                        self.map.height(),
                    );
                }
                self.put_tile(coords, tile.with_biomass(biomass))
            },
            Err(e) => Err(e),
        }
    }

    /// Sets the elevation, in metres, of the tile that `coords` names and
    /// changes nothing else; fails with `OutOfBounds`, changing nothing,
    /// where `coords` names no tile.
    pub fn set_height(&mut self, coords: Coords, height: i32) -> (r: Result<(), PlanetError>)
        requires
            old(self).wf(),
        ensures
            final(self).wf(),
            old(self).same_but_tiles(final(self)),
            keeps_footprints(
                old(self).map@,
                final(self).map@,
                old(self).map.width(),
                old(self).map.height(),
            ),
            in_grid(coords, old(self).map.width(), old(self).map.height()) ==> r == Ok::<
                (),
                PlanetError,
            >(()) && final(self).map@ == old(self).map@.update(
                cell_index(coords, old(self).map.width()),
                old(self).map.at(coords).spec_with_height(height),
            ),
            !in_grid(coords, old(self).map.width(), old(self).map.height()) ==> r == Err::<
                (),
                PlanetError,
            >(PlanetError::OutOfBounds) && final(self).map@ == old(self).map@,
    {
        match self.map.get(coords) {
            Ok(tile) => {
                proof {
                    crate::grid::lemma_cell_index_bounds(
                        coords,
                        self.map.width(),
                        self.map.height(),
                    );
                }
                self.put_tile(coords, tile.with_height(height))
            },
            Err(e) => Err(e),
        }
    }

    /// Whether a structure of side `size` can be placed with its anchor at
    /// `coords`: the square of that side, which spreads from `coords` to
    /// higher rows and, around the planet, to higher columns, has at least
    /// one tile, is no wider than the grid, lies within the rows of the
    /// grid, and covers free tiles only.
    pub fn placeable(&self, coords: Coords, size: u32) -> (b: bool)
        requires
            self.wf(),
        ensures
            b == self.spec_placeable(coords, size),
    {
        let (w, h) = self.map.size();
        if size < 1 || size > w || coords.1 < 0 || coords.1 as i64 + size as i64 > h as i64 {
            return false;
        }
        let ax: u32 = wrap_column(coords.0, w);
        let ghost tiles = self.map@;
        let ghost free = is_free(tiles);
        proof {
            lemma_holds_first_start(tiles.len(), w as nat, coords, size as nat, free);
        }
        let mut dy: u32 = 0;
        while dy < size
            invariant
                self.wf(),
                w == self.map.width(),
                h == self.map.height(),
                tiles == self.map@,
                free == is_free(tiles),
                fits(coords, size as nat, w as nat, h as nat),
                ax == wrap(coords.0 as int, w as int),
                ax < w,
                dy <= size,
                holds_first(tiles.len(), w as nat, coords, size as nat, dy as int, 0, free),
            decreases size - dy,
        {
            let mut dx: u32 = 0;
            while dx < size
                invariant
                    self.wf(),
                    w == self.map.width(),
                    h == self.map.height(),
                    tiles == self.map@,
                    free == is_free(tiles),
                    fits(coords, size as nat, w as nat, h as nat),
                    ax == wrap(coords.0 as int, w as int),
                    ax < w,
                    dy < size,
                    dx <= size,
                    holds_first(
                        tiles.len(),
                        w as nat,
                        coords,
                        size as nat,
                        dy as int,
                        dx as int,
                        free,
                    ),
                decreases size - dx,
            {
                let x: u32 = shift_column(ax, dx, w);
                let p = Coords(x as i32, coords.1 + dy as i32);
                proof {
                    lemma_holds_first_step(
                        tiles.len(),
                        w as nat,
                        h as nat,
                        coords,
                        size as nat,
                        dy as int,
                        dx as int,
                        p,
                        free,
                    );
                }
                let i: usize = self.map.canonical_index(p);
                let tile = self.map.cell(i);
                if !tile.structure.is_empty() {
                    assert(tiles[i as int].structure != Structure::Empty);
                    return false;
                }
                assert(free(i as int));
                dx = dx + 1;
            }
            proof {
                lemma_holds_first_row(tiles.len(), w as nat, coords, size as nat, dy as int, free);
            }
            dy = dy + 1;
        }
        proof {
            lemma_holds_first_end(tiles.len(), w as nat, coords, size as nat, free);
            assert forall|i: int|
                0 <= i < tiles.len() && covers(
                    anchor_of(coords, w as nat),
                    size as nat,
                    cell_coords(i, w as nat),
                    w as nat,
                ) implies (#[trigger] tiles[i]).structure == Structure::Empty by {
                assert(free(i));
            }
        }
        true
    }

    /// Places `structure`, of side `size`, with its anchor at `coords`: the
    /// anchor tile then holds the structure and every other tile of the
    /// square points to the anchor. Fails, changing nothing, with
    /// `UnknownKind` where `structure` is no structure itself, and with
    /// `NotPlaceable` where `placeable` says no.
    pub fn place(&mut self, coords: Coords, size: u32, structure: Structure) -> (r: Result<
        (),
        PlanetError,
    >)
        requires
            old(self).wf(),
        ensures
            final(self).wf(),
            old(self).same_but_tiles(final(self)),
            keeps_declared_footprints(
                old(self).map@,
                final(self).map@,
                old(self).map.width(),
                old(self).map.height(),
                structure,
                size as nat,
            ),
            r == place_outcome(
                old(self).map@,
                old(self).map.width(),
                old(self).map.height(),
                coords,
                size as nat,
                structure,
            ),
            final(self).map@ == (if r is Ok {
                placed_on(old(self).map@, old(self).map.width(), coords, size as nat, structure)
            } else {
                old(self).map@
            }),
    {
        if !structure.is_building() {
            return Err(PlanetError::UnknownKind);
        }
        if !self.placeable(coords, size) {
            return Err(PlanetError::NotPlaceable);
        }
        let (w, h) = self.map.size();
        let ax: u32 = wrap_column(coords.0, w);
        let anchor = Coords(ax as i32, coords.1);
        let ghost tiles = self.map@;
        proof {
            lemma_placed_first_start(tiles, w as nat, coords, size as nat, structure);
        }
        let mut dy: u32 = 0;
        while dy < size
            invariant
                self.map.wf(),
                old(self).same_but_tiles(self),
                w == self.map.width(),
                h == self.map.height(),
                tiles == old(self).map@,
                tiles.len() == w * h,
                fits(coords, size as nat, w as nat, h as nat),
                ax == wrap(coords.0 as int, w as int),
                ax < w,
                anchor == anchor_of(coords, w as nat),
                dy <= size,
                self.map@ == placed_first(
                    tiles,
                    w as nat,
                    coords,
                    size as nat,
                    structure,
                    dy as int,
                    0,
                ),
            decreases size - dy,
        {
            let mut dx: u32 = 0;
            while dx < size
                invariant
                    self.map.wf(),
                    old(self).same_but_tiles(self),
                    w == self.map.width(),
                    h == self.map.height(),
                    tiles == old(self).map@,
                    tiles.len() == w * h,
                    fits(coords, size as nat, w as nat, h as nat),
                    ax == wrap(coords.0 as int, w as int),
                    ax < w,
                ax < w,
                    anchor == anchor_of(coords, w as nat),
                    dy < size,
                    dx <= size,
                    self.map@ == placed_first(
                        tiles,
                        w as nat,
                        coords,
                        size as nat,
                        structure,
                        dy as int,
                        dx as int,
                    ),
                decreases size - dx,
            {
                let x: u32 = shift_column(ax, dx, w);
                let p = Coords(x as i32, coords.1 + dy as i32);
                proof {
                    lemma_placed_first_step(
                        tiles,
                        w as nat,
                        h as nat,
                        coords,
                        size as nat,
                        structure,
                        dy as int,
                        dx as int,
                        p,
                    );
                }
                let i: usize = self.map.canonical_index(p);
                let tile = self.map.cell(i);
                let part = if dx == 0 && dy == 0 {
                    structure
                } else {
                    Structure::Occupied { by: anchor }
                };
                self.map.set_cell(i, tile.with_structure(part));
                dx = dx + 1;
            }
            proof {
                lemma_placed_first_row(
                    tiles,
                    w as nat,
                    coords,
                    size as nat,
                    structure,
                    dy as int,
                );
            }
            dy = dy + 1;
        }
        proof {
            lemma_placed_first_end(tiles, w as nat, h as nat, coords, size as nat, structure);
            lemma_place_keeps_markers(tiles, w as nat, h as nat, coords, size as nat, structure);
            assert forall|i: int| 0 <= i < self.map@.len() implies (
            #[trigger] self.map@[i]).wf() by {
                assert(tiles[i].wf());
            }
            lemma_place_keeps_sound(tiles, w as nat, h as nat, coords, size as nat, structure);
        }
        Ok(())
    }

    /// Demolishes whatever stands on the tile that `coords` names: the
    /// anchor of that structure and every tile that points to it become
    /// free. Says whether anything stood there. Fails with `OutOfBounds`,
    /// changing nothing, where `coords` names no tile.
    pub fn demolish(&mut self, coords: Coords) -> (r: Result<bool, PlanetError>)
        requires
            old(self).wf(),
        ensures
            final(self).wf(),
            old(self).same_but_tiles(final(self)),
            keeps_footprints(
                old(self).map@,
                final(self).map@,
                old(self).map.width(),
                old(self).map.height(),
            ),
            in_grid(coords, old(self).map.width(), old(self).map.height()) ==> r == Ok::<
                bool,
                PlanetError,
            >(old(self).map.at(coords).structure != Structure::Empty) && final(self).map@
                == demolished_on(
                old(self).map@,
                old(self).map.width(),
                anchor_at(old(self).map@, old(self).map.width(), coords),
            ),
            r == Ok::<bool, PlanetError>(false) ==> final(self).map@ == old(self).map@,
            !in_grid(coords, old(self).map.width(), old(self).map.height()) ==> r == Err::<
                bool,
                PlanetError,
            >(PlanetError::OutOfBounds) && final(self).map@ == old(self).map@,
    {
        let i: usize = match self.map.index_of(coords) {
            Ok(i) => i,
            Err(e) => {
                return Err(e);
            },
        };
        let ghost tiles = self.map@;
        let ghost (w, h) = (self.map.width(), self.map.height());
        proof {
            lemma_anchor_canonical(coords, w, h);
            lemma_cell_coords_of_index(anchor_of(coords, w), w, h);
        }
        let tile = self.map.cell(i);
        let anchor: Coords = match tile.structure {
            Structure::Empty => {
                proof {
                    lemma_demolish_nothing(tiles, w, h, anchor_of(coords, w));
                }
                return Ok(false);
            },
            Structure::Occupied { by } => {
                proof {
                    lemma_anchored_at(tiles, w, by);
                }
                by
            },
            _ => self.map.coords_of(i),
        };
        self.clear_structure(anchor);
        proof {
            lemma_demolish_keeps_sound(tiles, w, h, anchor);
            lemma_demolish_keeps_markers(tiles, w, h, anchor);
            assert forall|k: int| 0 <= k < self.map@.len() implies (
            #[trigger] self.map@[k]).wf() by {
                assert(tiles[k].wf());
            }
        }
        Ok(true)
    }

    /// Frees the tile `anchor` and every tile that points to it.
    fn clear_structure(&mut self, anchor: Coords)
        requires
            old(self).map.wf(),
        ensures
            final(self).map.wf(),
            old(self).same_but_tiles(final(self)),
            final(self).map@ == demolished_on(old(self).map@, old(self).map.width(), anchor),
    {
        let ghost tiles = self.map@;
        let ghost w = self.map.width();
        let n: usize = self.map.len();
        let mut j: usize = 0;
        assert(self.map@ =~= demolished_first(tiles, w, anchor, 0));
        while j < n
            invariant
                self.map.wf(),
                old(self).same_but_tiles(self),
                tiles == old(self).map@,
                w == self.map.width(),
                n == tiles.len(),
                j <= n,
                self.map@ == demolished_first(tiles, w, anchor, j as int),
            decreases n - j,
        {
            let t = self.map.cell(j);
            let q = self.map.coords_of(j);
            if q == anchor || t.structure == (Structure::Occupied { by: anchor }) {
                self.map.set_cell(j, t.with_structure(Structure::Empty));
            }
            assert(self.map@ =~= demolished_first(tiles, w, anchor, j + 1));
            j = j + 1;
        }
        assert(self.map@ =~= demolished_on(tiles, w, anchor));
    }
}

} // verus!
