use planet_sim::{Biome, Coords, Planet, PlanetError, StartParams, Structure};

fn bare_planet(w: u32, h: u32) -> Planet {
    Planet::new(w, h, &StartParams::default())
}

fn structure_at(planet: &Planet, x: i32, y: i32) -> Structure {
    planet.tile(Coords(x, y)).unwrap().structure
}

#[test]
fn place_two_by_two_then_demolish() {
    let mut planet = bare_planet(10, 10);
    assert!(planet.placeable(Coords(3, 3), 2));
    assert_eq!(planet.place(Coords(3, 3), 2, Structure::FertilizationPlant), Ok(()));
    assert!(!planet.placeable(Coords(3, 3), 2));
    assert_eq!(structure_at(&planet, 3, 3), Structure::FertilizationPlant);
    let part = Structure::Occupied { by: Coords(3, 3) };
    assert_eq!(structure_at(&planet, 4, 3), part);
    assert_eq!(structure_at(&planet, 3, 4), part);
    assert_eq!(structure_at(&planet, 4, 4), part);
    for y in 0..10 {
        for x in 0..10 {
            if !((3..5).contains(&x) && (3..5).contains(&y)) {
                assert_eq!(structure_at(&planet, x, y), Structure::Empty);
            }
        }
    }
    assert_eq!(planet.demolish(Coords(3, 3)), Ok(true));
    assert!(planet.placeable(Coords(3, 3), 2));
    for y in 0..10 {
        for x in 0..10 {
            assert_eq!(structure_at(&planet, x, y), Structure::Empty);
        }
    }
}

#[test]
fn placing_twice_fails_the_second_time() {
    let mut planet = bare_planet(10, 10);
    assert_eq!(planet.place(Coords(3, 3), 2, Structure::Heater), Ok(()));
    let before = planet.clone();
    assert_eq!(
        planet.place(Coords(3, 3), 2, Structure::Heater),
        Err(PlanetError::NotPlaceable)
    );
    for y in 0..10 {
        for x in 0..10 {
            assert_eq!(structure_at(&planet, x, y), structure_at(&before, x, y));
        }
    }
}

#[test]
fn overlapping_footprints_are_refused() {
    let mut planet = bare_planet(10, 10);
    assert_eq!(planet.place(Coords(3, 3), 2, Structure::Heater), Ok(()));
    assert!(!planet.placeable(Coords(4, 4), 1));
    assert!(!planet.placeable(Coords(2, 2), 2));
    assert!(planet.placeable(Coords(5, 3), 2));
    assert!(planet.placeable(Coords(1, 2), 2));
    assert!(planet.placeable(Coords(3, 5), 2));
    assert_eq!(
        planet.place(Coords(2, 4), 2, Structure::OxygenGenerator),
        Err(PlanetError::NotPlaceable)
    );
    assert_eq!(structure_at(&planet, 2, 4), Structure::Empty);
    assert_eq!(structure_at(&planet, 2, 5), Structure::Empty);
}

#[test]
fn footprints_wrap_around_the_planet() {
    let mut planet = bare_planet(10, 10);
    assert!(planet.placeable(Coords(9, 0), 2));
    assert_eq!(planet.place(Coords(9, 0), 2, Structure::OxygenGenerator), Ok(()));
    assert_eq!(structure_at(&planet, 9, 0), Structure::OxygenGenerator);
    let part = Structure::Occupied { by: Coords(9, 0) };
    assert_eq!(structure_at(&planet, 0, 0), part);
    assert_eq!(structure_at(&planet, 9, 1), part);
    assert_eq!(structure_at(&planet, 0, 1), part);
    assert_eq!(structure_at(&planet, 1, 0), Structure::Empty);
    assert_eq!(structure_at(&planet, 8, 0), Structure::Empty);
    // the same anchor under another name
    assert!(!planet.placeable(Coords(-1, 0), 2));
    assert!(!planet.placeable(Coords(19, 0), 1));
    assert_eq!(planet.demolish(Coords(10, 1)), Ok(true));
    assert!(planet.placeable(Coords(-1, 0), 2));
}

#[test]
fn anchors_are_stored_wrapped() {
    let mut planet = bare_planet(10, 10);
    assert_eq!(planet.place(Coords(-8, 3), 2, Structure::Heater), Ok(()));
    assert_eq!(structure_at(&planet, 2, 3), Structure::Heater);
    assert_eq!(
        structure_at(&planet, 3, 4),
        Structure::Occupied { by: Coords(2, 3) }
    );
}

#[test]
fn footprints_must_stay_within_the_rows() {
    let mut planet = bare_planet(10, 10);
    assert!(planet.placeable(Coords(0, 8), 2));
    assert!(!planet.placeable(Coords(0, 9), 2));
    assert!(!planet.placeable(Coords(0, -1), 2));
    assert!(!planet.placeable(Coords(0, 10), 1));
    assert!(!planet.placeable(Coords(0, i32::MAX), 2));
    assert_eq!(
        planet.place(Coords(0, 9), 2, Structure::Heater),
        Err(PlanetError::NotPlaceable)
    );
    assert_eq!(structure_at(&planet, 0, 9), Structure::Empty);
}

#[test]
fn footprints_need_a_side_between_one_and_the_width() {
    let planet = bare_planet(4, 6);
    assert!(!planet.placeable(Coords(0, 0), 0));
    assert!(planet.placeable(Coords(0, 0), 1));
    assert!(planet.placeable(Coords(2, 0), 4));
    assert!(!planet.placeable(Coords(0, 0), 5));
    assert!(!planet.placeable(Coords(0, 0), u32::MAX));
}

#[test]
fn only_structures_can_be_placed() {
    let mut planet = bare_planet(5, 5);
    assert_eq!(
        planet.place(Coords(1, 1), 1, Structure::Empty),
        Err(PlanetError::UnknownKind)
    );
    assert_eq!(
        planet.place(Coords(1, 1), 1, Structure::Occupied { by: Coords(0, 0) }),
        Err(PlanetError::UnknownKind)
    );
    assert_eq!(structure_at(&planet, 1, 1), Structure::Empty);
    assert!(planet.placeable(Coords(1, 1), 1));
}

#[test]
fn demolishing_from_any_tile_of_the_footprint() {
    let mut planet = bare_planet(8, 8);
    assert_eq!(planet.place(Coords(2, 2), 3, Structure::Heater), Ok(()));
    assert_eq!(planet.place(Coords(5, 2), 1, Structure::OxygenGenerator), Ok(()));
    assert_eq!(planet.demolish(Coords(4, 4)), Ok(true));
    for y in 2..5 {
        for x in 2..5 {
            assert_eq!(structure_at(&planet, x, y), Structure::Empty);
        }
    }
    assert_eq!(structure_at(&planet, 5, 2), Structure::OxygenGenerator);
    assert_eq!(planet.demolish(Coords(4, 4)), Ok(false));
    assert_eq!(planet.demolish(Coords(4, 8)), Err(PlanetError::OutOfBounds));
    assert_eq!(structure_at(&planet, 5, 2), Structure::OxygenGenerator);
}

#[test]
fn edit_biome_changes_one_tile() {
    let mut planet = bare_planet(6, 4);
    assert_eq!(planet.edit_biome(Coords(7, 2), Biome::Ocean), Ok(()));
    for y in 0..4 {
        for x in 0..6 {
            let tile = planet.tile(Coords(x, y)).unwrap();
            let expected = if (x, y) == (1, 2) { Biome::Ocean } else { Biome::Rock };
            assert_eq!(tile.biome, expected);
            assert_eq!(tile.structure, Structure::Empty);
            assert_eq!(tile.temp, 300_000);
        }
    }
    assert_eq!(
        planet.edit_biome(Coords(0, 4), Biome::Ice),
        Err(PlanetError::OutOfBounds)
    );
    assert_eq!(planet.tile(Coords(0, 4)), Err(PlanetError::OutOfBounds));
}

#[test]
fn tiles_take_temperature_biomass_and_height() {
    let mut planet = bare_planet(4, 4);
    assert_eq!(planet.set_temp(Coords(1, 1), 250_000), Ok(()));
    assert_eq!(planet.set_biomass(Coords(1, 1), 12), Ok(()));
    assert_eq!(planet.set_height(Coords(1, 1), -40), Ok(()));
    let tile = planet.tile(Coords(1, 1)).unwrap();
    assert_eq!((tile.temp, tile.biomass, tile.height), (250_000, 12, -40));
    assert_eq!(tile.biome, Biome::Rock);
    assert_eq!(planet.tile(Coords(2, 1)).unwrap().temp, 300_000);
    // temperatures stay above absolute zero and at most 1000 K
    assert_eq!(planet.set_temp(Coords(5, 1), 0), Ok(()));
    assert_eq!(planet.tile(Coords(1, 1)).unwrap().temp, 1);
    assert_eq!(planet.set_temp(Coords(1, 1), u32::MAX), Ok(()));
    assert_eq!(planet.tile(Coords(1, 1)).unwrap().temp, 1_000_000);
    assert_eq!(planet.set_temp(Coords(1, 4), 5), Err(PlanetError::OutOfBounds));
    assert_eq!(planet.set_biomass(Coords(1, -1), 5), Err(PlanetError::OutOfBounds));
    assert_eq!(planet.set_height(Coords(1, 9), 5), Err(PlanetError::OutOfBounds));
    assert!(planet.check());
}

#[test]
fn a_planet_knows_whether_it_is_well_formed() {
    let mut planet = bare_planet(4, 4);
    assert!(planet.check());
    assert_eq!(planet.place(Coords(1, 1), 2, Structure::Heater), Ok(()));
    assert!(planet.check());
    let mut cold = planet.clone();
    cold.map.set_cell(0, cold.map.cell(0).with_biomass(3));
    assert!(cold.check());
    let mut tile = cold.map.cell(0);
    tile.temp = 0;
    cold.map.set_cell(0, tile);
    assert!(!cold.check());
    let mut hot = planet.clone();
    let mut tile = hot.map.cell(3);
    tile.temp = 1_000_001;
    hot.map.set_cell(3, tile);
    assert!(!hot.check());
    let mut dangling = planet.clone();
    let i = dangling.map.canonical_index(Coords(1, 1));
    dangling.map.set_cell(i, dangling.map.cell(i).with_structure(Structure::Empty));
    assert!(!dangling.check());
    let mut astray = planet.clone();
    let lost = Structure::Occupied { by: Coords(4, 0) };
    astray.map.set_cell(0, astray.map.cell(0).with_structure(lost));
    assert!(!astray.check());
    let mut overrun = planet.clone();
    overrun.orbit.insert(0, planet_sim::Building { n: 1, enabled: 2 });
    assert!(!overrun.check());
    let mut overrun = planet.clone();
    overrun.star_system.insert(1, planet_sim::Building { n: 0, enabled: 1 });
    assert!(!overrun.check());
    // what is held under a code that no kind has does not count
    planet.orbit.insert(7, planet_sim::Building { n: 0, enabled: 1 });
    assert!(planet.check());
}

#[test]
fn a_part_of_a_structure_shows_the_structure() {
    let mut planet = bare_planet(6, 6);
    assert_eq!(planet.place(Coords(5, 2), 2, Structure::FertilizationPlant), Ok(()));
    assert_eq!(planet.structure_at(Coords(5, 2)), Ok(Structure::FertilizationPlant));
    assert_eq!(planet.structure_at(Coords(0, 3)), Ok(Structure::FertilizationPlant));
    assert_eq!(planet.structure_at(Coords(6, 2)), Ok(Structure::FertilizationPlant));
    assert_eq!(planet.structure_at(Coords(1, 2)), Ok(Structure::Empty));
    assert_eq!(planet.structure_at(Coords(1, 6)), Err(PlanetError::OutOfBounds));
}
