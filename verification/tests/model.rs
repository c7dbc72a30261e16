use planet_sim::atmo::GAS_MAX;
use planet_sim::tile::{BIOMASS_MAX, TEMP_DEFAULT, TEMP_MAX};
use planet_sim::{
    Atmosphere, Biome, GasKind, PlanetBasics, Player, StartParams, Structure, StructureKind, Tile,
};

#[test]
fn a_default_tile_is_bare_rock_at_300_kelvin() {
    let tile = Tile::default();
    assert_eq!(
        tile,
        Tile {
            biome: Biome::Rock,
            structure: Structure::Empty,
            height: 0,
            biomass: 0,
            temp: 300_000
        }
    );
    assert_eq!(TEMP_DEFAULT, 300_000);
}

#[test]
fn warming_keeps_the_temperature_in_range() {
    let tile = Tile::default();
    assert_eq!(tile.warmed(1_500).temp, 301_500);
    assert_eq!(tile.warmed(-1_500).temp, 298_500);
    assert_eq!(tile.warmed(-299_999).temp, 1);
    assert_eq!(tile.warmed(-300_000).temp, 1);
    assert_eq!(tile.warmed(i64::MIN).temp, 1);
    assert_eq!(tile.warmed(700_000).temp, TEMP_MAX);
    assert_eq!(tile.warmed(700_001).temp, TEMP_MAX);
    assert_eq!(tile.warmed(i64::MAX).temp, TEMP_MAX);
    let hot = Tile { temp: u32::MAX, ..tile };
    assert_eq!(hot.warmed(0).temp, TEMP_MAX);
    assert_eq!(hot.warmed(-4_294_000_000).temp, 967_295);
    assert_eq!(tile.warmed(5).biome, Biome::Rock);
    assert_eq!(tile.with_temp(0).temp, 1);
    assert_eq!(tile.with_temp(77).temp, 77);
    assert_eq!(tile.with_temp(1_000_001).temp, TEMP_MAX);
}

#[test]
fn fertilizing_keeps_the_biomass_in_range() {
    let tile = Tile::default();
    assert_eq!(tile.fertilized(7).biomass, 7);
    assert_eq!(tile.fertilized(7).fertilized(-3).biomass, 4);
    assert_eq!(tile.fertilized(7).fertilized(-8).biomass, 0);
    assert_eq!(tile.fertilized(i64::MAX).biomass, BIOMASS_MAX);
    assert_eq!(tile.fertilized(i64::MIN).biomass, 0);
    assert_eq!(tile.fertilized(7).temp, 300_000);
    let changed = tile
        .with_biomass(9)
        .with_height(-2)
        .with_biome(Biome::Ice)
        .with_structure(Structure::Heater);
    assert_eq!(
        changed,
        Tile {
            biome: Biome::Ice,
            structure: Structure::Heater,
            height: -2,
            biomass: 9,
            temp: 300_000
        }
    );
}

#[test]
fn gases_are_added_and_taken_within_their_range() {
    let mut air = Atmosphere { oxygen: 10, nitrogen: 20, carbon_dioxide: 30 };
    air.add(GasKind::Oxygen, 5);
    air.add(GasKind::Nitrogen, -25);
    air.add(GasKind::CarbonDioxide, -30);
    assert_eq!(air, Atmosphere { oxygen: 15, nitrogen: 0, carbon_dioxide: 0 });
    assert_eq!(air.mass(GasKind::Oxygen), 15);
    assert_eq!(air.total(), 15);
    air.oxygen = GAS_MAX - 1;
    air.add(GasKind::Oxygen, 2);
    assert_eq!(air.oxygen, GAS_MAX);
    air.nitrogen = GAS_MAX;
    air.carbon_dioxide = GAS_MAX;
    assert_eq!(air.total(), 3 * GAS_MAX as u128);
    let start = StartParams { atmo: air, ..StartParams::default() };
    assert_eq!(Atmosphere::from_params(&start), air);
}

#[test]
fn turning_one_gas_into_another_keeps_the_mass_of_the_air() {
    let mut air = Atmosphere { oxygen: 10, nitrogen: 20, carbon_dioxide: 30 };
    assert_eq!(air.convert(GasKind::CarbonDioxide, GasKind::Oxygen, 12), 12);
    assert_eq!(air, Atmosphere { oxygen: 22, nitrogen: 20, carbon_dioxide: 18 });
    // no more than there is
    assert_eq!(air.convert(GasKind::CarbonDioxide, GasKind::Oxygen, 100), 18);
    assert_eq!(air, Atmosphere { oxygen: 40, nitrogen: 20, carbon_dioxide: 0 });
    assert_eq!(air.convert(GasKind::CarbonDioxide, GasKind::Oxygen, 1), 0);
    // a gas does not turn into itself
    assert_eq!(air.convert(GasKind::Nitrogen, GasKind::Nitrogen, 5), 0);
    assert_eq!(air, Atmosphere { oxygen: 40, nitrogen: 20, carbon_dioxide: 0 });
    // no more than there is room for
    air.oxygen = GAS_MAX - 3;
    assert_eq!(air.convert(GasKind::Nitrogen, GasKind::Oxygen, 5), 3);
    assert_eq!(air, Atmosphere { oxygen: GAS_MAX, nitrogen: 17, carbon_dioxide: 0 });
    assert_eq!(air.with(GasKind::CarbonDioxide, 4).carbon_dioxide, 4);
}

#[test]
fn what_the_player_may_build_only_grows() {
    let mut player = Player::default();
    assert_eq!(player.buildable(), vec![]);
    assert!(!player.can_build(StructureKind::Heater));
    player.unlock(StructureKind::Heater);
    assert!(player.can_build(StructureKind::Heater));
    assert!(!player.can_build(StructureKind::OxygenGenerator));
    player.unlock(StructureKind::OxygenGenerator);
    player.unlock(StructureKind::Heater);
    assert_eq!(player.buildable(), vec![StructureKind::OxygenGenerator, StructureKind::Heater]);
}

#[test]
fn the_default_start_is_bare() {
    let start = StartParams::default();
    assert_eq!(start.basics, PlanetBasics { radius: 6_371_000 });
    assert_eq!(start.basics, PlanetBasics::default());
    assert!(start.resources.is_empty());
    assert!(start.orbital_buildings.is_empty());
    assert!(start.star_system_buildings.is_empty());
    assert_eq!(start.atmo, Atmosphere { oxygen: 0, nitrogen: 0, carbon_dioxide: 0 });
}
