//! One day of everything that was built: the facilities in orbit and in
//! the star system, then the structures on the surface.

use crate::atmo::GasKind;
use crate::defs::{
    BuildingAttrs, OrbitalBuildingKind, Params, ResourceKind, StarSystemBuildingKind, Structure,
    StructureAttrs, StructureKind,
};
use crate::fnv_map::map_get;
use crate::footprints::{keeps_footprints, lemma_same_structures_keep_sound};
use crate::placement::lemma_same_structures_keep_markers;
use crate::planet::Planet;
use crate::registry::{building_at, building_of, Building};
use crate::resources::{gross_of, lemma_run_diff, lemma_run_times_diff, net_of, Ledger, Resources};
use crate::tile::Tile;
use fnv::FnvHashMap;
use vstd::prelude::*;

verus! {

/// The ledger after one day of the running facilities of the kinds with
/// the codes below `kinds`, kind by kind in the order of their codes.
pub open spec fn after_facilities(
    ledger: Ledger,
    registry: Map<u32, Building>,
    catalog: Map<u32, BuildingAttrs>,
    kinds: nat,
) -> Ledger
    decreases kinds,
{
    if kinds == 0 {
        ledger
    } else {
        let code = (kinds - 1) as u32;
        after_facilities(ledger, registry, catalog, (kinds - 1) as nat).run_times(
            catalog[code].upkeep@,
            catalog[code].produces@,
            building_at(registry, code).enabled as nat,
        )
    }
}

/// The ledger after one day of the structures anchored on the first `n`
/// tiles, tile by tile.
pub open spec fn after_structures(
    ledger: Ledger,
    tiles: Seq<Tile>,
    catalog: Map<u32, StructureAttrs>,
    n: nat,
) -> Ledger
    decreases n,
{
    if n == 0 {
        ledger
    } else {
        let before = after_structures(ledger, tiles, catalog, (n - 1) as nat);
        match tiles[n - 1].structure.spec_kind() {
            Some(kind) => before.run(
                catalog[kind.spec_code()].building.upkeep@,
                catalog[kind.spec_code()].building.produces@,
            ),
            None => before,
        }
    }
}

/// The ledger after one day of everything that was built.
pub open spec fn ledger_after_day(
    ledger: Ledger,
    orbit: Map<u32, Building>,
    star_system: Map<u32, Building>,
    tiles: Seq<Tile>,
    params: &Params,
) -> Ledger {
    after_structures(
        after_facilities(
            after_facilities(
                ledger,
                orbit,
                params.orbital_buildings@,
                OrbitalBuildingKind::spec_all().len(),
            ),
            star_system,
            params.star_system_buildings@,
            StarSystemBuildingKind::spec_all().len(),
        ),
        tiles,
        params.structures@,
        tiles.len(),
    )
}

/// What the running facilities of the kinds with the codes below `kinds`
/// declare to add to the stock of `kind` in a day: for each what it
/// produces less what it takes.
pub open spec fn declared_by_facilities(
    registry: Map<u32, Building>,
    catalog: Map<u32, BuildingAttrs>,
    kinds: nat,
    kind: ResourceKind,
) -> int
    decreases kinds,
{
    if kinds == 0 {
        0
    } else {
        let code = (kinds - 1) as u32;
        declared_by_facilities(registry, catalog, (kinds - 1) as nat, kind) + building_at(
            registry,
            code,
        ).enabled * net_of(catalog[code].upkeep@, catalog[code].produces@, kind)
    }
}

/// What those facilities declare to move of `kind` in a day: for each what
/// it takes and what it produces together.
pub open spec fn moved_by_facilities(
    registry: Map<u32, Building>,
    catalog: Map<u32, BuildingAttrs>,
    kinds: nat,
    kind: ResourceKind,
) -> int
    decreases kinds,
{
    if kinds == 0 {
        0
    } else {
        let code = (kinds - 1) as u32;
        moved_by_facilities(registry, catalog, (kinds - 1) as nat, kind) + building_at(
            registry,
            code,
        ).enabled * gross_of(catalog[code].upkeep@, catalog[code].produces@, kind)
    }
}

/// What the structures anchored on the first `n` tiles declare to add to
/// the stock of `kind` in a day.
pub open spec fn declared_by_structures(
    tiles: Seq<Tile>,
    catalog: Map<u32, StructureAttrs>,
    n: nat,
    kind: ResourceKind,
) -> int
    decreases n,
{
    if n == 0 {
        0
    } else {
        declared_by_structures(tiles, catalog, (n - 1) as nat, kind) + (match tiles[n
            - 1].structure.spec_kind() {
            Some(s) => net_of(
                catalog[s.spec_code()].building.upkeep@,
                catalog[s.spec_code()].building.produces@,
                kind,
            ),
            None => 0,
        })
    }
}

/// What those structures declare to move of `kind` in a day.
pub open spec fn moved_by_structures(
    tiles: Seq<Tile>,
    catalog: Map<u32, StructureAttrs>,
    n: nat,
    kind: ResourceKind,
) -> int
    decreases n,
{
    if n == 0 {
        0
    } else {
        moved_by_structures(tiles, catalog, (n - 1) as nat, kind) + (match tiles[n
            - 1].structure.spec_kind() {
            Some(s) => gross_of(
                catalog[s.spec_code()].building.upkeep@,
                catalog[s.spec_code()].building.produces@,
                kind,
            ),
            None => 0,
        })
    }
}

/// What everything that was built declares to add to the stock of `kind`
/// in a day.
pub open spec fn declared_by_all(
    orbit: Map<u32, Building>,
    star_system: Map<u32, Building>,
    tiles: Seq<Tile>,
    params: &Params,
    kind: ResourceKind,
) -> int {
    declared_by_facilities(
        orbit,
        params.orbital_buildings@,
        OrbitalBuildingKind::spec_all().len(),
        kind,
    ) + declared_by_facilities(
        star_system,
        params.star_system_buildings@,
        StarSystemBuildingKind::spec_all().len(),
        kind,
    ) + declared_by_structures(tiles, params.structures@, tiles.len(), kind)
}

/// What everything that was built declares to move of `kind` in a day.
pub open spec fn moved_by_all(
    orbit: Map<u32, Building>,
    star_system: Map<u32, Building>,
    tiles: Seq<Tile>,
    params: &Params,
    kind: ResourceKind,
) -> int {
    moved_by_facilities(
        orbit,
        params.orbital_buildings@,
        OrbitalBuildingKind::spec_all().len(),
        kind,
    ) + moved_by_facilities(
        star_system,
        params.star_system_buildings@,
        StarSystemBuildingKind::spec_all().len(),
        kind,
    ) + moved_by_structures(tiles, params.structures@, tiles.len(), kind)
}

/// Nothing moves a negative amount.
pub proof fn lemma_moved_non_negative(
    registry: Map<u32, Building>,
    catalog: Map<u32, BuildingAttrs>,
    kinds: nat,
    tiles: Seq<Tile>,
    structures: Map<u32, StructureAttrs>,
    n: nat,
    kind: ResourceKind,
)
    ensures
        moved_by_facilities(registry, catalog, kinds, kind) >= 0,
        moved_by_structures(tiles, structures, n, kind) >= 0,
    decreases kinds + n,
{
    if kinds > 0 {
        let code = (kinds - 1) as u32;
        lemma_moved_non_negative(registry, catalog, (kinds - 1) as nat, tiles, structures, n, kind);
        let enabled = building_at(registry, code).enabled as int;
        let gross = gross_of(catalog[code].upkeep@, catalog[code].produces@, kind);
        assert(enabled * gross >= 0) by (nonlinear_arith)
            requires
                enabled >= 0,
                gross >= 0,
        ;
    } else if n > 0 {
        lemma_moved_non_negative(registry, catalog, kinds, tiles, structures, (n - 1) as nat, kind);
    }
}

/// While the day's change stays in range, the facilities change it by
/// exactly what they declare.
pub proof fn lemma_facilities_diff(
    ledger: Ledger,
    registry: Map<u32, Building>,
    catalog: Map<u32, BuildingAttrs>,
    kinds: nat,
    kind: ResourceKind,
    bound: int,
)
    requires
        -bound <= ledger.diff[kind] <= bound,
        bound + moved_by_facilities(registry, catalog, kinds, kind) <= i64::MAX,
    ensures
        after_facilities(ledger, registry, catalog, kinds).diff[kind] == ledger.diff[kind]
            + declared_by_facilities(registry, catalog, kinds, kind),
        -(bound + moved_by_facilities(registry, catalog, kinds, kind)) <= after_facilities(
            ledger,
            registry,
            catalog,
            kinds,
        ).diff[kind] <= bound + moved_by_facilities(registry, catalog, kinds, kind),
    decreases kinds,
{
    if kinds > 0 {
        let code = (kinds - 1) as u32;
        let fewer = (kinds - 1) as nat;
        let enabled = building_at(registry, code).enabled as nat;
        let gross = gross_of(catalog[code].upkeep@, catalog[code].produces@, kind);
        assert(enabled * gross >= 0) by (nonlinear_arith)
            requires
                enabled >= 0,
                gross >= 0,
        ;
        lemma_facilities_diff(ledger, registry, catalog, fewer, kind, bound);
        lemma_moved_non_negative(registry, catalog, fewer, Seq::empty(), Map::empty(), 0, kind);
        lemma_run_times_diff(
            after_facilities(ledger, registry, catalog, fewer),
            catalog[code].upkeep@,
            catalog[code].produces@,
            enabled,
            kind,
            bound + moved_by_facilities(registry, catalog, fewer, kind),
        );
    }
}

/// While the day's change stays in range, the structures change it by
/// exactly what they declare.
pub proof fn lemma_structures_diff(
    ledger: Ledger,
    tiles: Seq<Tile>,
    catalog: Map<u32, StructureAttrs>,
    n: nat,
    kind: ResourceKind,
    bound: int,
)
    requires
        -bound <= ledger.diff[kind] <= bound,
        bound + moved_by_structures(tiles, catalog, n, kind) <= i64::MAX,
    ensures
        after_structures(ledger, tiles, catalog, n).diff[kind] == ledger.diff[kind]
            + declared_by_structures(tiles, catalog, n, kind),
        -(bound + moved_by_structures(tiles, catalog, n, kind)) <= after_structures(
            ledger,
            tiles,
            catalog,
            n,
        ).diff[kind] <= bound + moved_by_structures(tiles, catalog, n, kind),
    decreases n,
{
    if n > 0 {
        let fewer = (n - 1) as nat;
        lemma_structures_diff(ledger, tiles, catalog, fewer, kind, bound);
        lemma_moved_non_negative(Map::empty(), Map::empty(), 0, tiles, catalog, fewer, kind);
        match tiles[n - 1].structure.spec_kind() {
            Some(s) => {
                lemma_run_diff(
                    after_structures(ledger, tiles, catalog, fewer),
                    catalog[s.spec_code()].building.upkeep@,
                    catalog[s.spec_code()].building.produces@,
                    kind,
                    bound + moved_by_structures(tiles, catalog, fewer, kind),
                );
            },
            None => {},
        }
    }
}

/// At the end of a day the ledger shows, as the day's change of each
/// resource, exactly the sum of what everything that was built declares:
/// for each running facility and each structure what it produces less what
/// it takes, whether or not the stock covered the upkeep. This holds as
/// long as what they move together fits the range of the day's change.
pub proof fn lemma_day_diff_is_declared(
    ledger: Ledger,
    orbit: Map<u32, Building>,
    star_system: Map<u32, Building>,
    tiles: Seq<Tile>,
    params: &Params,
    kind: ResourceKind,
)
    requires
        moved_by_all(orbit, star_system, tiles, params, kind) <= i64::MAX,
    ensures
        ledger_after_day(ledger.reset_diffs(), orbit, star_system, tiles, params).diff[kind]
            == declared_by_all(orbit, star_system, tiles, params, kind),
{
    let start = ledger.reset_diffs();
    let orbital_kinds = OrbitalBuildingKind::spec_all().len();
    let star_kinds = StarSystemBuildingKind::spec_all().len();
    let moved_orbit = moved_by_facilities(orbit, params.orbital_buildings@, orbital_kinds, kind);
    let moved_star = moved_by_facilities(
        star_system,
        params.star_system_buildings@,
        star_kinds,
        kind,
    );
    lemma_moved_non_negative(
        orbit,
        params.orbital_buildings@,
        orbital_kinds,
        tiles,
        params.structures@,
        tiles.len(),
        kind,
    );
    lemma_moved_non_negative(
        star_system,
        params.star_system_buildings@,
        star_kinds,
        tiles,
        params.structures@,
        tiles.len(),
        kind,
    );
    lemma_facilities_diff(start, orbit, params.orbital_buildings@, orbital_kinds, kind, 0);
    let after_orbit = after_facilities(start, orbit, params.orbital_buildings@, orbital_kinds);
    lemma_facilities_diff(
        after_orbit,
        star_system,
        params.star_system_buildings@,
        star_kinds,
        kind,
        moved_orbit,
    );
    let after_star = after_facilities(
        after_orbit,
        star_system,
        params.star_system_buildings@,
        star_kinds,
    );
    lemma_structures_diff(
        after_star,
        tiles,
        params.structures@,
        tiles.len(),
        kind,
        moved_orbit + moved_star,
    );
}

/// What the catalog gives as the daily effect of structures of `kind`.
pub open spec fn effect_of(catalog: Map<u32, StructureAttrs>, kind: StructureKind) -> int {
    catalog[kind.spec_code()].effect as int
}

/// A tile after one day of what is anchored on it: a fertilization plant
/// grows biomass, a heater warms the tile.
pub open spec fn tile_after_day(tile: Tile, catalog: Map<u32, StructureAttrs>) -> Tile {
    match tile.structure {
        Structure::FertilizationPlant => tile.spec_fertilized(
            effect_of(catalog, StructureKind::FertilizationPlant),
        ),
        Structure::Heater => tile.spec_warmed(effect_of(catalog, StructureKind::Heater)),
        _ => tile,
    }
}

/// The tiles while the day's effects are applied: the first `done` tiles
/// are as they will be, the others as they were.
pub open spec fn tiles_after_day_first(
    tiles: Seq<Tile>,
    catalog: Map<u32, StructureAttrs>,
    done: int,
) -> Seq<Tile> {
    Seq::new(
        tiles.len(),
        |i: int|
            if i < done {
                tile_after_day(tiles[i], catalog)
            } else {
                tiles[i]
            },
    )
}

/// The tiles after one day of what is anchored on them.
pub open spec fn tiles_after_day(tiles: Seq<Tile>, catalog: Map<u32, StructureAttrs>) -> Seq<
    Tile,
> {
    Seq::new(tiles.len(), |i: int| tile_after_day(tiles[i], catalog))
}

/// The oxygen that the generators anchored on the first `n` tiles release
/// in one day.
pub open spec fn oxygen_released(
    tiles: Seq<Tile>,
    catalog: Map<u32, StructureAttrs>,
    n: nat,
) -> int
    decreases n,
{
    if n == 0 {
        0
    } else {
        oxygen_released(tiles, catalog, (n - 1) as nat) + (if tiles[n - 1].structure
            == Structure::OxygenGenerator {
            effect_of(catalog, StructureKind::OxygenGenerator)
        } else {
            0
        })
    }
}

/// Generators never take oxygen away.
pub proof fn lemma_oxygen_released_non_negative(
    tiles: Seq<Tile>,
    catalog: Map<u32, StructureAttrs>,
    n: nat,
)
    ensures
        oxygen_released(tiles, catalog, n) >= 0,
    decreases n,
{
    if n > 0 {
        lemma_oxygen_released_non_negative(tiles, catalog, (n - 1) as nat);
    }
}

/// One day of the running facilities of the kinds with the codes below
/// `kinds`: each running facility takes its upkeep and adds what it
/// produces.
pub fn advance_facilities(
    res: &mut Resources,
    registry: &FnvHashMap<u32, Building>,
    catalog: &FnvHashMap<u32, BuildingAttrs>,
    kinds: u32,
)
    requires
        forall|code: u32| code < kinds ==> #[trigger] catalog@.contains_key(code),
    ensures
        final(res)@ == after_facilities(old(res)@, registry@, catalog@, kinds as nat),
{
    let mut code: u32 = 0;
    while code < kinds
        invariant
            code <= kinds,
            forall|c: u32| c < kinds ==> #[trigger] catalog@.contains_key(c),
            res@ == after_facilities(old(res)@, registry@, catalog@, code as nat),
        decreases kinds - code,
    {
        let building = building_of(registry, code);
        match map_get(catalog, code) {
            Some(attrs) => {
                res.run_building_times(attrs, building.enabled);
            },
            None => {
                assert(catalog@.contains_key(code));
            },
        }
        code = code + 1;
    }
}

/// One day of the structures on the surface, tile by tile: each takes its
/// upkeep and adds what it produces; a generator releases oxygen, a
/// fertilization plant grows biomass on its tile, a heater warms its tile.
pub fn advance_structures(planet: &mut Planet, params: &Params)
    requires
        old(planet).wf(),
        params.wf(),
    ensures
        final(planet).wf(),
        final(planet).days == old(planet).days,
        final(planet).basics == old(planet).basics,
        final(planet).player == old(planet).player,
        final(planet).orbit == old(planet).orbit,
        final(planet).star_system == old(planet).star_system,
        final(planet).map.width() == old(planet).map.width(),
        final(planet).map.height() == old(planet).map.height(),
        final(planet).res@ == after_structures(
            old(planet).res@,
            old(planet).map@,
            params.structures@,
            old(planet).map@.len(),
        ),
        final(planet).map@ == tiles_after_day(old(planet).map@, params.structures@),
        keeps_footprints(
            old(planet).map@,
            final(planet).map@,
            old(planet).map.width(),
            old(planet).map.height(),
        ),
        final(planet).atmo == old(planet).atmo.spec_add(
            GasKind::Oxygen,
            oxygen_released(old(planet).map@, params.structures@, old(planet).map@.len()),
        ),
{
    let ghost tiles = planet.map@;
    let ghost catalog = params.structures@;
    let n: usize = planet.map.len();
    let mut i: usize = 0;
    assert(planet.map@ =~= tiles_after_day_first(tiles, catalog, 0));
    while i < n
        invariant
            i <= n,
            n == tiles.len(),
            tiles == old(planet).map@,
            catalog == params.structures@,
            params.wf(),
            planet.map.wf(),
            planet.days == old(planet).days,
            planet.basics == old(planet).basics,
            planet.player == old(planet).player,
            planet.orbit == old(planet).orbit,
            planet.star_system == old(planet).star_system,
            planet.map.width() == old(planet).map.width(),
            planet.map.height() == old(planet).map.height(),
            forall|k: int| 0 <= k < tiles.len() ==> (#[trigger] tiles[k]).wf(),
            planet.res@ == after_structures(old(planet).res@, tiles, catalog, i as nat),
            planet.map@ == tiles_after_day_first(tiles, catalog, i as int),
            planet.atmo == old(planet).atmo.spec_add(
                GasKind::Oxygen,
                oxygen_released(tiles, catalog, i as nat),
            ),
        decreases n - i,
    {
        let tile = planet.map.cell(i);
        proof {
            lemma_oxygen_released_non_negative(tiles, catalog, i as nat);
        }
        match tile.structure.kind() {
            Some(kind) => {
                match map_get(&params.structures, kind.code()) {
                    Some(attrs) => {
                        planet.res.run_building(&attrs.building);
                        match kind {
                            StructureKind::OxygenGenerator => {
                                planet.atmo.add(GasKind::Oxygen, attrs.effect as i64);
                            },
                            StructureKind::FertilizationPlant => {
                                planet.map.set_cell(i, tile.fertilized(attrs.effect as i64));
                            },
                            StructureKind::Heater => {
                                planet.map.set_cell(i, tile.warmed(attrs.effect as i64));
                            },
                            StructureKind::Empty => {},
                        }
                    },
                    None => {
                        assert(params.structures@.contains_key(kind.spec_code()));
                    },
                }
            },
            None => {},
        }
        assert(planet.map@ =~= tiles_after_day_first(tiles, catalog, i + 1));
        i = i + 1;
    }
    proof {
        assert(planet.map@ =~= tiles_after_day(tiles, catalog));
        assert forall|k: int| 0 <= k < planet.map@.len() implies (
        #[trigger] planet.map@[k]).wf() by {
            assert(tiles[k].wf());
        }
        lemma_same_structures_keep_markers(
            tiles,
            planet.map@,
            planet.map.width(),
            planet.map.height(),
        );
        lemma_same_structures_keep_sound(
            tiles,
            planet.map@,
            planet.map.width(),
            planet.map.height(),
        );
    }
}

/// One day of everything that was built: the facilities in orbit, kind by
/// kind, then those in the star system, then the structures on the
/// surface, tile by tile.
pub fn advance(planet: &mut Planet, params: &Params)
    requires
        old(planet).wf(),
        params.wf(),
    ensures
        final(planet).wf(),
        final(planet).days == old(planet).days,
        final(planet).basics == old(planet).basics,
        final(planet).player == old(planet).player,
        final(planet).orbit == old(planet).orbit,
        final(planet).star_system == old(planet).star_system,
        final(planet).map.width() == old(planet).map.width(),
        final(planet).map.height() == old(planet).map.height(),
        final(planet).res@ == ledger_after_day(
            old(planet).res@,
            old(planet).orbit@,
            old(planet).star_system@,
            old(planet).map@,
            params,
        ),
        final(planet).map@ == tiles_after_day(old(planet).map@, params.structures@),
        keeps_footprints(
            old(planet).map@,
            final(planet).map@,
            old(planet).map.width(),
            old(planet).map.height(),
        ),
        final(planet).atmo == old(planet).atmo.spec_add(
            GasKind::Oxygen,
            oxygen_released(old(planet).map@, params.structures@, old(planet).map@.len()),
        ),
{
    let orbital_kinds = OrbitalBuildingKind::all();
    let star_system_kinds = StarSystemBuildingKind::all();
    proof {
        assert forall|code: u32| code < orbital_kinds.len() implies #[trigger]
            params.orbital_buildings@.contains_key(code) by {
            let kind = OrbitalBuildingKind::spec_all()[code as int];
            assert(params.orbital_buildings@.contains_key(kind.spec_code()));
        }
        assert forall|code: u32| code < star_system_kinds.len() implies #[trigger]
            params.star_system_buildings@.contains_key(code) by {
            let kind = StarSystemBuildingKind::spec_all()[code as int];
            assert(params.star_system_buildings@.contains_key(kind.spec_code()));
        }
    }
    advance_facilities(
        &mut planet.res,
        &planet.orbit,
        &params.orbital_buildings,
        orbital_kinds.len() as u32,
    );
    advance_facilities(
        &mut planet.res,
        &planet.star_system,
        &params.star_system_buildings,
        star_system_kinds.len() as u32,
    );
    advance_structures(planet, params);
}

} // verus!
