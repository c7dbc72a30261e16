use planet_sim::buildings::advance_facilities;
use planet_sim::{
    Atmosphere, Biome, Building, BuildingAttrs, BuildingCommand, Coords, GasKind,
    OrbitalBuildingKind, Params, Planet, PlanetError, ResourceKind, StarSystemBuildingKind,
    StartParams, Structure, StructureAttrs, StructureKind,
};

fn attrs(upkeep: &[(ResourceKind, u32)], produces: &[(ResourceKind, u32)]) -> BuildingAttrs {
    let mut a = BuildingAttrs::new();
    for (kind, amount) in upkeep {
        a.upkeep.insert(kind.code(), *amount);
    }
    for (kind, amount) in produces {
        a.produces.insert(kind.code(), *amount);
    }
    a
}

fn catalog() -> Params {
    let mut p = Params::new();
    p.structures.insert(
        StructureKind::OxygenGenerator.code(),
        StructureAttrs {
            size: 1,
            building: attrs(&[(ResourceKind::Energy, 5)], &[]),
            effect: 10,
        },
    );
    p.structures.insert(
        StructureKind::FertilizationPlant.code(),
        StructureAttrs {
            size: 2,
            building: attrs(&[(ResourceKind::Energy, 3), (ResourceKind::Material, 1)], &[]),
            effect: 7,
        },
    );
    p.structures.insert(
        StructureKind::Heater.code(),
        StructureAttrs {
            size: 1,
            building: attrs(&[(ResourceKind::Energy, 4)], &[]),
            effect: 1500,
        },
    );
    p.orbital_buildings.insert(
        OrbitalBuildingKind::FusionReactor.code(),
        attrs(&[(ResourceKind::Material, 2)], &[(ResourceKind::Energy, 50)]),
    );
    p.orbital_buildings.insert(
        OrbitalBuildingKind::SolarMirror.code(),
        attrs(&[], &[(ResourceKind::Energy, 5)]),
    );
    p.star_system_buildings.insert(
        StarSystemBuildingKind::AsteroidMiningStation.code(),
        attrs(&[(ResourceKind::Energy, 10)], &[(ResourceKind::Material, 8)]),
    );
    p.star_system_buildings.insert(
        StarSystemBuildingKind::DysonSwarmUnit.code(),
        attrs(&[], &[(ResourceKind::Energy, 100)]),
    );
    p
}

fn rich_start() -> StartParams {
    let mut start = StartParams::default();
    start.resources.insert(ResourceKind::Energy.code(), 1000);
    start.resources.insert(ResourceKind::Material.code(), 500);
    start.atmo = Atmosphere { oxygen: 40, nitrogen: 700, carbon_dioxide: 3 };
    start.orbital_buildings.insert(OrbitalBuildingKind::FusionReactor.code(), 3);
    start.star_system_buildings.insert(StarSystemBuildingKind::AsteroidMiningStation.code(), 2);
    start
}

#[test]
fn a_new_planet_is_bare_rock_on_day_zero() {
    let start = rich_start();
    let planet = Planet::new(6, 4, &start);
    assert_eq!(planet.days, 0);
    assert_eq!(planet.basics.radius, 6_371_000);
    assert_eq!(planet.map.size(), (6, 4));
    for y in 0..4 {
        for x in 0..6 {
            let tile = planet.tile(Coords(x, y)).unwrap();
            assert_eq!(tile.biome, Biome::Rock);
            assert_eq!(tile.structure, Structure::Empty);
            assert_eq!(tile.height, 0);
            assert_eq!(tile.biomass, 0);
            assert_eq!(tile.temp, 300_000);
        }
    }
    assert_eq!(planet.res.stock_of(ResourceKind::Energy), 1000);
    assert_eq!(planet.res.stock_of(ResourceKind::Material), 500);
    assert_eq!(planet.res.stock_of(ResourceKind::Ice), 0);
    assert_eq!(planet.res.diff_of(ResourceKind::Energy), 0);
    assert_eq!(planet.atmo, Atmosphere { oxygen: 40, nitrogen: 700, carbon_dioxide: 3 });
    assert_eq!(
        planet.orbital(OrbitalBuildingKind::FusionReactor),
        Building { n: 3, enabled: 3 }
    );
    assert_eq!(
        planet.orbital(OrbitalBuildingKind::SolarMirror),
        Building { n: 0, enabled: 0 }
    );
    assert_eq!(
        planet.star_system_building(StarSystemBuildingKind::AsteroidMiningStation),
        Building { n: 2, enabled: 2 }
    );
    assert_eq!(
        planet.star_system_building(StarSystemBuildingKind::DysonSwarmUnit),
        Building { n: 0, enabled: 0 }
    );
    assert_eq!(planet.orbit.len(), 2);
    assert_eq!(planet.star_system.len(), 2);
    assert_eq!(
        planet.player.buildable(),
        vec![
            StructureKind::OxygenGenerator,
            StructureKind::FertilizationPlant,
            StructureKind::Heater
        ]
    );
    assert!(!planet.player.can_build(StructureKind::Empty));
}

#[test]
fn one_day_on_a_default_planet() {
    let params = catalog();
    assert_eq!(params.validate(), Ok(()));
    let mut planet = Planet::new(10, 10, &StartParams::default());
    planet.advance(&params);
    assert_eq!(planet.days, 1);
    for y in 0..10 {
        for x in 0..10 {
            let tile = planet.tile(Coords(x, y)).unwrap();
            assert!(tile.temp <= 1_000_000);
            assert_eq!(tile.temp, 300_000);
        }
    }
    // nothing is built, so nothing is produced or used
    for k in ResourceKind::all() {
        assert_eq!(planet.res.diff_of(k), 0);
        assert_eq!(planet.res.stock_of(k), 0);
    }
}

#[test]
fn diffs_are_the_sum_of_what_running_buildings_declare() {
    let params = catalog();
    let mut planet = Planet::new(10, 10, &rich_start());
    planet.command_orbital(OrbitalBuildingKind::FusionReactor, BuildingCommand::SetEnabled(2));
    assert_eq!(planet.place(Coords(1, 1), 1, Structure::Heater), Ok(()));
    assert_eq!(planet.place(Coords(4, 4), 2, Structure::FertilizationPlant), Ok(()));
    planet.advance(&params);
    assert_eq!(planet.days, 1);
    // two reactors: Material -2 each, Energy +50 each
    // two mining stations: Energy -10 each, Material +8 each
    // one heater: Energy -4; one plant: Energy -3, Material -1
    assert_eq!(planet.res.diff_of(ResourceKind::Energy), 2 * 50 - 2 * 10 - 4 - 3);
    assert_eq!(planet.res.diff_of(ResourceKind::Material), -2 * 2 + 2 * 8 - 1);
    assert_eq!(planet.res.diff_of(ResourceKind::Ice), 0);
    assert_eq!(planet.res.stock_of(ResourceKind::Energy), 1000 + 73);
    assert_eq!(planet.res.stock_of(ResourceKind::Material), 500 + 11);
    // the diff is of one day, not of all days
    planet.advance(&params);
    assert_eq!(planet.days, 2);
    assert_eq!(planet.res.diff_of(ResourceKind::Energy), 73);
    assert_eq!(planet.res.stock_of(ResourceKind::Energy), 1000 + 2 * 73);
}

#[test]
fn structures_act_on_their_anchor_tile_only() {
    let params = catalog();
    let mut planet = Planet::new(8, 8, &rich_start());
    assert_eq!(planet.place(Coords(1, 1), 1, Structure::Heater), Ok(()));
    assert_eq!(planet.place(Coords(4, 4), 2, Structure::FertilizationPlant), Ok(()));
    assert_eq!(planet.place(Coords(6, 0), 1, Structure::OxygenGenerator), Ok(()));
    assert_eq!(planet.place(Coords(7, 7), 1, Structure::OxygenGenerator), Ok(()));
    planet.advance(&params);
    for y in 0..8 {
        for x in 0..8 {
            let tile = planet.tile(Coords(x, y)).unwrap();
            let temp = if (x, y) == (1, 1) { 301_500 } else { 300_000 };
            let biomass = if (x, y) == (4, 4) { 7 } else { 0 };
            assert_eq!(tile.temp, temp);
            assert_eq!(tile.biomass, biomass);
        }
    }
    assert_eq!(planet.atmo.mass(GasKind::Oxygen), 40 + 2 * 10);
    assert_eq!(planet.atmo.mass(GasKind::Nitrogen), 700);
    assert_eq!(planet.atmo.mass(GasKind::CarbonDioxide), 3);
    assert_eq!(
        planet.tile(Coords(5, 5)).unwrap().structure,
        Structure::Occupied { by: Coords(4, 4) }
    );
}

#[test]
fn a_heater_stops_at_the_highest_temperature() {
    let mut params = catalog();
    params.structures.get_mut(&StructureKind::Heater.code()).unwrap().effect = u32::MAX;
    let mut planet = Planet::new(3, 3, &StartParams::default());
    assert_eq!(planet.place(Coords(0, 0), 1, Structure::Heater), Ok(()));
    planet.advance(&params);
    assert_eq!(planet.tile(Coords(0, 0)).unwrap().temp, 1_000_000);
    planet.advance(&params);
    assert_eq!(planet.tile(Coords(0, 0)).unwrap().temp, 1_000_000);
}

#[test]
fn upkeep_that_cannot_be_paid_is_tolerated() {
    let params = catalog();
    let mut start = StartParams::default();
    start.star_system_buildings.insert(StarSystemBuildingKind::AsteroidMiningStation.code(), 1);
    let mut planet = Planet::new(2, 2, &start);
    planet.advance(&params);
    assert_eq!(planet.res.stock_of(ResourceKind::Energy), 0);
    assert_eq!(planet.res.diff_of(ResourceKind::Energy), -10);
    assert_eq!(planet.res.stock_of(ResourceKind::Material), 8);
    assert_eq!(
        planet.star_system_building(StarSystemBuildingKind::AsteroidMiningStation),
        Building { n: 1, enabled: 1 }
    );
}

#[test]
fn the_day_counter_goes_up_by_one_each_day() {
    let params = catalog();
    let mut planet = Planet::new(3, 2, &StartParams::default());
    for day in 1..=5u64 {
        planet.advance(&params);
        assert_eq!(planet.days, day);
    }
    planet.edit_biome(Coords(0, 0), Biome::Desert).unwrap();
    planet.place(Coords(0, 0), 1, Structure::Heater).unwrap();
    planet.demolish(Coords(0, 0)).unwrap();
    planet.command_orbital(OrbitalBuildingKind::SolarMirror, BuildingCommand::Construct);
    assert_eq!(planet.days, 5);
}

#[test]
fn facilities_are_built_taken_down_and_switched() {
    let mut planet = Planet::new(2, 2, &rich_start());
    let kind = OrbitalBuildingKind::FusionReactor;
    planet.command_orbital(kind, BuildingCommand::Construct);
    assert_eq!(planet.orbital(kind), Building { n: 4, enabled: 4 });
    planet.command_orbital(kind, BuildingCommand::SetEnabled(1));
    assert_eq!(planet.orbital(kind), Building { n: 4, enabled: 1 });
    planet.command_orbital(kind, BuildingCommand::SetEnabled(9));
    assert_eq!(planet.orbital(kind), Building { n: 4, enabled: 4 });
    planet.command_orbital(kind, BuildingCommand::Demolish);
    assert_eq!(planet.orbital(kind), Building { n: 3, enabled: 3 });
    planet.command_orbital(kind, BuildingCommand::SetEnabled(1));
    planet.command_orbital(kind, BuildingCommand::Demolish);
    assert_eq!(planet.orbital(kind), Building { n: 2, enabled: 1 });
    planet.command_orbital(kind, BuildingCommand::Construct);
    assert_eq!(planet.orbital(kind), Building { n: 3, enabled: 2 });
    let other = StarSystemBuildingKind::DysonSwarmUnit;
    planet.command_star_system(other, BuildingCommand::Demolish);
    assert_eq!(planet.star_system_building(other), Building { n: 0, enabled: 0 });
    planet.command_star_system(other, BuildingCommand::Construct);
    assert_eq!(planet.star_system_building(other), Building { n: 1, enabled: 1 });
    assert_eq!(
        planet.star_system_building(StarSystemBuildingKind::AsteroidMiningStation),
        Building { n: 2, enabled: 2 }
    );
    assert_eq!(planet.orbital(OrbitalBuildingKind::SolarMirror), Building { n: 0, enabled: 0 });
}

#[test]
fn building_counts_stop_at_their_limits() {
    let full = Building { n: u32::MAX, enabled: 7 };
    assert_eq!(full.constructed(), full);
    assert_eq!(Building::default().demolished(), Building { n: 0, enabled: 0 });
    assert_eq!(Building::new(5), Building { n: 5, enabled: 5 });
    assert_eq!(Building::new(5).with_enabled(0), Building { n: 5, enabled: 0 });
    assert_eq!(
        Building { n: 5, enabled: 2 }.after(BuildingCommand::Demolish),
        Building { n: 4, enabled: 2 }
    );
}

#[test]
fn only_running_facilities_work() {
    let params = catalog();
    let mut planet = Planet::new(1, 1, &rich_start());
    planet.command_orbital(OrbitalBuildingKind::FusionReactor, BuildingCommand::SetEnabled(0));
    planet.command_star_system(
        StarSystemBuildingKind::AsteroidMiningStation,
        BuildingCommand::SetEnabled(0),
    );
    planet.advance(&params);
    for k in ResourceKind::all() {
        assert_eq!(planet.res.diff_of(k), 0);
    }
    assert_eq!(planet.res.stock_of(ResourceKind::Energy), 1000);
}

#[test]
fn facilities_run_kind_by_kind() {
    let params = catalog();
    let mut planet = Planet::new(1, 1, &StartParams::default());
    planet.command_orbital(OrbitalBuildingKind::SolarMirror, BuildingCommand::Construct);
    planet.command_orbital(OrbitalBuildingKind::FusionReactor, BuildingCommand::Construct);
    advance_facilities(&mut planet.res, &planet.orbit, &params.orbital_buildings, 2);
    // the reactor runs first and finds no material; the mirror adds its 5
    assert_eq!(planet.res.stock_of(ResourceKind::Energy), 55);
    assert_eq!(planet.res.stock_of(ResourceKind::Material), 0);
    assert_eq!(planet.res.diff_of(ResourceKind::Material), -2);
}

#[test]
fn a_catalog_must_describe_every_kind() {
    let mut params = catalog();
    assert_eq!(params.validate(), Ok(()));
    params.orbital_buildings.remove(&OrbitalBuildingKind::SolarMirror.code());
    assert_eq!(params.validate(), Err(PlanetError::UnknownKind));
    let mut params = catalog();
    params.structures.remove(&StructureKind::Heater.code());
    assert_eq!(params.validate(), Err(PlanetError::UnknownKind));
    let mut params = catalog();
    params.star_system_buildings.remove(&StarSystemBuildingKind::DysonSwarmUnit.code());
    assert_eq!(params.validate(), Err(PlanetError::UnknownKind));
    assert_eq!(Params::new().validate(), Err(PlanetError::UnknownKind));
}
